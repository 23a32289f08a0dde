//! The loaded sprite library and the questions asked of it.

use crate::library::{Animation, Clip, Collection};
use crate::parallel::{names_in_order, position_first, precedes, sort_by_name};
use crate::settings::Settings;
use crate::sprite::Sprite;
use vstd::prelude::*;

verus! {

/// Everything the application holds in memory: the collections and animations
/// found in the sprites folder, and the settings.
#[derive(Clone, Debug)]
pub struct App {
    pub loaded_collections: Vec<Collection>,
    pub loaded_animations: Vec<Animation>,
    pub settings: Settings,
}

impl Default for App {
    /// Nothing loaded, default settings.
    fn default() -> (app: Self)
        ensures
            app.loaded_collections@.len() == 0,
            app.loaded_animations@.len() == 0,
            app.settings.language@ == "en"@,
            app.settings.sprites_path@ == Seq::<char>::empty(),
            app.settings.mode@ == "dark"@,
    {
        App {
            loaded_collections: Vec::new(),
            loaded_animations: Vec::new(),
            settings: Settings::default(),
        }
    }
}

/// Whether `i` is the position of the first collection named `name`.
pub open spec fn is_first_collection(collections: Seq<Collection>, name: Seq<char>, i: int) -> bool {
    &&& 0 <= i < collections.len()
    &&& collections[i].name@ == name
    &&& forall|j: int| 0 <= j < i ==> (#[trigger] collections[j]).name@ != name
}

/// Whether some collection is named `name`.
pub open spec fn has_collection(collections: Seq<Collection>, name: Seq<char>) -> bool {
    exists|i: int| 0 <= i < collections.len() && (#[trigger] collections[i]).name@ == name
}

/// Whether `i` is the position of the first animation named `name`.
pub open spec fn is_first_animation(animations: Seq<Animation>, name: Seq<char>, i: int) -> bool {
    &&& 0 <= i < animations.len()
    &&& animations[i].name@ == name
    &&& forall|j: int| 0 <= j < i ==> (#[trigger] animations[j]).name@ != name
}

/// Whether some animation is named `name`.
pub open spec fn has_animation(animations: Seq<Animation>, name: Seq<char>) -> bool {
    exists|i: int| 0 <= i < animations.len() && (#[trigger] animations[i]).name@ == name
}

/// Whether a frame of the clip belongs to the collection named `name`.
pub open spec fn clip_uses(clip: Clip, name: Seq<char>) -> bool {
    exists|f: int| 0 <= f < clip.frames@.len() && (#[trigger] clip.frames@[f]).collection_name@ == name
}

/// Whether a frame of the animation belongs to the collection named `name`.
pub open spec fn animation_uses(animation: Animation, name: Seq<char>) -> bool {
    exists|c: int| 0 <= c < animation.clips@.len() && clip_uses(#[trigger] animation.clips@[c], name)
}

/// Whether the collection holds a sprite named `name`.
pub open spec fn holds_sprite_named(collection: Collection, name: Seq<char>) -> bool {
    exists|k: int|
        0 <= k < collection.sprites@.len() && (#[trigger] collection.sprites@[k]).name@ == name
}

/// The position of the first collection named `collection_name`.
pub fn find_collection(collection_name: &str, collections: &Vec<Collection>) -> (position: Option<
    usize,
>)
    ensures
        match position {
            Some(i) => is_first_collection(collections@, collection_name@, i as int),
            None => !has_collection(collections@, collection_name@),
        },
{
    let wanted = collection_name.to_owned();
    let named = |collection: &Collection| -> (matches: bool)
        ensures
            matches == (collection.name@ == wanted@),
        {
            collection.name == wanted
        };
    position_first(collections, named)
}

/// The first collection named `collection_name`.
pub fn get_collection<'a>(collection_name: &str, collections: &'a Vec<Collection>) -> (found: Option<
    &'a Collection,
>)
    ensures
        found matches Some(collection) ==> exists|i: int|
            is_first_collection(collections@, collection_name@, i) && *collection
                == #[trigger] collections@[i],
        found is None ==> !has_collection(collections@, collection_name@),
{
    match find_collection(collection_name, collections) {
        Some(i) => Some(&collections[i]),
        None => None,
    }
}

/// The position of the first animation named `animation_name`.
pub fn find_animation(animation_name: &str, animations: &Vec<Animation>) -> (position: Option<usize>)
    ensures
        match position {
            Some(i) => is_first_animation(animations@, animation_name@, i as int),
            None => !has_animation(animations@, animation_name@),
        },
{
    let wanted = animation_name.to_owned();
    let named = |animation: &Animation| -> (matches: bool)
        ensures
            matches == (animation.name@ == wanted@),
        {
            animation.name == wanted
        };
    position_first(animations, named)
}

/// The first animation named `animation_name`.
pub fn get_animation<'a>(animation_name: &str, animations: &'a Vec<Animation>) -> (found: Option<
    &'a Animation,
>)
    ensures
        found matches Some(animation) ==> exists|i: int|
            is_first_animation(animations@, animation_name@, i) && *animation
                == #[trigger] animations@[i],
        found is None ==> !has_animation(animations@, animation_name@),
{
    match find_animation(animation_name, animations) {
        Some(i) => Some(&animations[i]),
        None => None,
    }
}

/// The names of the animations, in their order.
pub fn get_animation_list(animations: &Vec<Animation>) -> (names: Vec<String>)
    ensures
        names@.len() == animations@.len(),
        forall|i: int| 0 <= i < names@.len() ==> (#[trigger] names@[i])@ == animations@[i].name@,
{
    let mut names: Vec<String> = Vec::new();
    let mut i: usize = 0;
    while i < animations.len()
        invariant
            i <= animations.len(),
            names@.len() == i,
            forall|k: int| 0 <= k < i ==> (#[trigger] names@[k])@ == animations@[k].name@,
        decreases animations.len() - i,
    {
        names.push(animations[i].name.clone());
        i += 1;
    }
    names
}

/// Whether a frame of the clip belongs to the collection named `wanted`.
fn clip_has_frame_of(clip: &Clip, wanted: &String) -> (uses: bool)
    ensures
        uses == clip_uses(*clip, wanted@),
{
    let of_collection = |frame: &Sprite| -> (matches: bool)
        ensures
            matches == (frame.collection_name@ == wanted@),
        {
            frame.collection_name == *wanted
        };
    position_first(&clip.frames, of_collection).is_some()
}

/// Whether a frame of the animation belongs to the collection named `wanted`.
fn animation_has_frame_of(animation: &Animation, wanted: &String) -> (uses: bool)
    ensures
        uses == animation_uses(*animation, wanted@),
{
    let with_frame = |clip: &Clip| -> (matches: bool)
        ensures
            matches == clip_uses(*clip, wanted@),
        {
            clip_has_frame_of(clip, wanted)
        };
    position_first(&animation.clips, with_frame).is_some()
}

/// The name of the first animation that has a frame from the collection named
/// `collection_name`.
pub fn get_animation_name_from_collection_name(
    collection_name: &str,
    animations: &Vec<Animation>,
) -> (found: Option<String>)
    ensures
        found matches Some(name) ==> exists|i: int|
            0 <= i < animations@.len() && name@ == (#[trigger] animations@[i]).name@
                && animation_uses(animations@[i], collection_name@) && forall|j: int|
                0 <= j < i ==> !animation_uses(#[trigger] animations@[j], collection_name@),
        found is None ==> forall|i: int|
            0 <= i < animations@.len() ==> !animation_uses(
                #[trigger] animations@[i],
                collection_name@,
            ),
{
    let wanted = collection_name.to_owned();
    let with_frame = |animation: &Animation| -> (matches: bool)
        ensures
            matches == animation_uses(*animation, wanted@),
        {
            animation_has_frame_of(animation, &wanted)
        };
    match position_first(animations, with_frame) {
        Some(i) => Some(animations[i].name.clone()),
        None => None,
    }
}

/// The first collection that holds a sprite named `sprite_name`.
pub fn get_collection_from_sprite_name<'a>(
    sprite_name: &str,
    collections: &'a Vec<Collection>,
) -> (found: Option<&'a Collection>)
    ensures
        found matches Some(collection) ==> exists|i: int|
            0 <= i < collections@.len() && *collection == #[trigger] collections@[i]
                && holds_sprite_named(collections@[i], sprite_name@) && forall|j: int|
                0 <= j < i ==> !holds_sprite_named(#[trigger] collections@[j], sprite_name@),
        found is None ==> forall|i: int|
            0 <= i < collections@.len() ==> !holds_sprite_named(
                #[trigger] collections@[i],
                sprite_name@,
            ),
{
    let wanted = sprite_name.to_owned();
    let holding = |collection: &Collection| -> (matches: bool)
        ensures
            matches == holds_sprite_named(*collection, wanted@),
        {
            let named = |sprite: &Sprite| -> (same: bool)
                ensures
                    same == (sprite.name@ == wanted@),
                {
                    sprite.name == wanted
                };
            position_first(&collection.sprites, named).is_some()
        };
    match position_first(collections, holding) {
        Some(i) => Some(&collections[i]),
        None => None,
    }
}

/// Whether the names of the collections stand in the order of strings.
pub open spec fn collections_sorted(collections: Seq<Collection>) -> bool {
    forall|i: int, j: int|
        0 <= i < j < collections.len() ==> precedes(
            (#[trigger] collections[i]).name@,
            (#[trigger] collections[j]).name@,
        )
}

/// Whether the names of the animations stand in the order of strings.
pub open spec fn animations_sorted(animations: Seq<Animation>) -> bool {
    forall|i: int, j: int|
        0 <= i < j < animations.len() ==> precedes(
            (#[trigger] animations[i]).name@,
            (#[trigger] animations[j]).name@,
        )
}

/// Whether the names of the clips stand in the order of strings.
pub open spec fn clips_sorted(clips: Seq<Clip>) -> bool {
    forall|i: int, j: int|
        0 <= i < j < clips.len() ==> precedes(
            (#[trigger] clips[i]).name@,
            (#[trigger] clips[j]).name@,
        )
}

/// Puts the collections in the order of their names.
pub fn sort_collections(collections: &mut Vec<Collection>)
    ensures
        final(collections)@.to_multiset() == old(collections)@.to_multiset(),
        collections_sorted(final(collections)@),
{
    let name_of = |collection: &Collection| -> (name: String)
        ensures
            name@ == collection.name@,
        {
            collection.name.clone()
        };
    sort_by_name(collections, name_of);
    proof {
        assert forall|i: int, j: int| 0 <= i < j < collections@.len() implies precedes(
            (#[trigger] collections@[i]).name@,
            (#[trigger] collections@[j]).name@,
        ) by {
            assert(names_in_order(name_of, collections@[i], collections@[j]));
            let (a, b) = choose|a: String, b: String|
                #[trigger] call_ensures(name_of, (&collections@[i],), a) && #[trigger] call_ensures(
                    name_of,
                    (&collections@[j],),
                    b,
                ) && precedes(a@, b@);
            assert(a@ == collections@[i].name@ && b@ == collections@[j].name@);
        }
    }
}

/// Puts the animations in the order of their names.
pub fn sort_animations(animations: &mut Vec<Animation>)
    ensures
        final(animations)@.to_multiset() == old(animations)@.to_multiset(),
        animations_sorted(final(animations)@),
{
    let name_of = |animation: &Animation| -> (name: String)
        ensures
            name@ == animation.name@,
        {
            animation.name.clone()
        };
    sort_by_name(animations, name_of);
    proof {
        assert forall|i: int, j: int| 0 <= i < j < animations@.len() implies precedes(
            (#[trigger] animations@[i]).name@,
            (#[trigger] animations@[j]).name@,
        ) by {
            assert(names_in_order(name_of, animations@[i], animations@[j]));
            let (a, b) = choose|a: String, b: String|
                #[trigger] call_ensures(name_of, (&animations@[i],), a) && #[trigger] call_ensures(
                    name_of,
                    (&animations@[j],),
                    b,
                ) && precedes(a@, b@);
            assert(a@ == animations@[i].name@ && b@ == animations@[j].name@);
        }
    }
}

/// Puts the clips in the order of their names.
pub fn sort_clips(clips: &mut Vec<Clip>)
    ensures
        final(clips)@.to_multiset() == old(clips)@.to_multiset(),
        clips_sorted(final(clips)@),
{
    let name_of = |clip: &Clip| -> (name: String)
        ensures
            name@ == clip.name@,
        {
            clip.name.clone()
        };
    sort_by_name(clips, name_of);
    proof {
        assert forall|i: int, j: int| 0 <= i < j < clips@.len() implies precedes(
            (#[trigger] clips@[i]).name@,
            (#[trigger] clips@[j]).name@,
        ) by {
            assert(names_in_order(name_of, clips@[i], clips@[j]));
            let (a, b) = choose|a: String, b: String|
                #[trigger] call_ensures(name_of, (&clips@[i],), a) && #[trigger] call_ensures(
                    name_of,
                    (&clips@[j],),
                    b,
                ) && precedes(a@, b@);
            assert(a@ == clips@[i].name@ && b@ == clips@[j].name@);
        }
    }
}

/// Files a sprite under its collection. The sprite is appended to the first
/// collection that carries its collection's name; where there is none yet, a
/// new collection with that name, the given atlas path and this one sprite is
/// appended to the list.
pub fn add_sprite(collections: &mut Vec<Collection>, sprite: Sprite, atlas_path: String)
    ensures
        has_collection(old(collections)@, sprite.collection_name@) ==> {
            &&& final(collections)@.len() == old(collections)@.len()
            &&& exists|i: int|
                {
                    &&& is_first_collection(old(collections)@, sprite.collection_name@, i)
                    &&& (#[trigger] final(collections)@[i]).name == old(collections)@[i].name
                    &&& final(collections)@[i].path == old(collections)@[i].path
                    &&& final(collections)@[i].sprites@ == old(collections)@[i].sprites@.push(
                        sprite,
                    )
                    &&& forall|j: int|
                        0 <= j < old(collections)@.len() && j != i
                            ==> #[trigger] final(collections)@[j] == old(collections)@[j]
                }
        },
        !has_collection(old(collections)@, sprite.collection_name@) ==> {
            &&& final(collections)@.len() == old(collections)@.len() + 1
            &&& final(collections)@.drop_last() == old(collections)@
            &&& final(collections)@.last().name@ == sprite.collection_name@
            &&& final(collections)@.last().path == atlas_path
            &&& final(collections)@.last().sprites@ == seq![sprite]
        },
{
    match find_collection(sprite.collection_name.as_str(), collections) {
        Some(i) => {
            collections[i].sprites.push(sprite);
        },
        None => {
            let name = sprite.collection_name.clone();
            let mut sprites: Vec<Sprite> = Vec::new();
            sprites.push(sprite);
            collections.push(Collection { name, path: atlas_path, sprites });
            assert(collections@.drop_last() =~= old(collections)@);
        },
    }
}

/// Whether `name` is among `names`.
pub open spec fn names_hold(names: Seq<String>, name: Seq<char>) -> bool {
    exists|k: int| 0 <= k < names.len() && (#[trigger] names[k])@ == name
}

/// The collection names of all frames of the animation, clip by clip.
fn used_names(animation: &Animation) -> (names: Vec<String>)
    ensures
        forall|name: Seq<char>| names_hold(names@, name) <==> animation_uses(*animation, name),
{
    let mut names: Vec<String> = Vec::new();
    let mut c: usize = 0;
    while c < animation.clips.len()
        invariant
            c <= animation.clips@.len(),
            forall|k: int|
                0 <= k < names@.len() ==> animation_uses(*animation, (#[trigger] names@[k])@),
            forall|d: int, g: int|
                0 <= d < c && 0 <= g < animation.clips@[d].frames@.len() ==> names_hold(
                    names@,
                    (#[trigger] animation.clips@[d].frames@[g]).collection_name@,
                ),
        decreases animation.clips.len() - c,
    {
        let clip = &animation.clips[c];
        let ghost start = names@;
        let mut f: usize = 0;
        while f < clip.frames.len()
            invariant
                f <= clip.frames@.len(),
                c < animation.clips@.len(),
                *clip == animation.clips@[c as int],
                start.len() <= names@.len(),
                forall|k: int| 0 <= k < start.len() ==> names@[k] == start[k],
                forall|k: int|
                    0 <= k < names@.len() ==> animation_uses(*animation, (#[trigger] names@[k])@),
                forall|g: int|
                    0 <= g < f ==> names_hold(
                        names@,
                        (#[trigger] clip.frames@[g]).collection_name@,
                    ),
            decreases clip.frames.len() - f,
        {
            let ghost before = names@;
            names.push(clip.frames[f].collection_name.clone());
            proof {
                let added = clip.frames@[f as int].collection_name@;
                assert(names@[names@.len() - 1]@ == added);
                assert(clip_uses(*clip, added));
                assert(animation_uses(*animation, added));
                assert forall|g: int| 0 <= g < f + 1 implies names_hold(
                    names@,
                    (#[trigger] clip.frames@[g]).collection_name@,
                ) by {
                    let wanted = clip.frames@[g].collection_name@;
                    if g < f {
                        assert(names_hold(before, wanted));
                        let k = choose|k: int|
                            0 <= k < before.len() && (#[trigger] before[k])@ == wanted;
                        assert(names@[k]@ == wanted);
                    }
                }
            }
            f += 1;
        }
        proof {
            assert forall|d: int, g: int|
                0 <= d < c + 1 && 0 <= g < animation.clips@[d].frames@.len() implies names_hold(
                names@,
                (#[trigger] animation.clips@[d].frames@[g]).collection_name@,
            ) by {
                let wanted = animation.clips@[d].frames@[g].collection_name@;
                if d < c {
                    assert(names_hold(start, wanted));
                    let k = choose|k: int| 0 <= k < start.len() && (#[trigger] start[k])@ == wanted;
                    assert(names@[k]@ == wanted);
                } else {
                    assert(names_hold(names@, clip.frames@[g].collection_name@));
                }
            }
        }
        c += 1;
    }
    proof {
        assert forall|name: Seq<char>| names_hold(names@, name) <==> animation_uses(
            *animation,
            name,
        ) by {
            if names_hold(names@, name) {
                let k = choose|k: int| 0 <= k < names@.len() && (#[trigger] names@[k])@ == name;
                assert(animation_uses(*animation, names@[k]@));
            }
            if animation_uses(*animation, name) {
                let d = choose|d: int|
                    0 <= d < animation.clips@.len() && clip_uses(
                        #[trigger] animation.clips@[d],
                        name,
                    );
                let g = choose|g: int|
                    0 <= g < animation.clips@[d].frames@.len() && (#[trigger] animation.clips@[d].frames@[g]).collection_name@
                        == name;
                assert(names_hold(names@, animation.clips@[d].frames@[g].collection_name@));
            }
        }
    }
    names
}

/// Whether `names` holds `name`.
fn holds_name(names: &Vec<String>, name: &String) -> (held: bool)
    ensures
        held == names_hold(names@, name@),
{
    let same = |other: &String| -> (matches: bool)
        ensures
            matches == (other@ == name@),
        {
            *other == *name
        };
    position_first(names, same).is_some()
}

/// Sorting keeps the names that a list holds.
proof fn lemma_same_names(before: Seq<String>, after: Seq<String>, name: Seq<char>)
    requires
        before.to_multiset() == after.to_multiset(),
        names_hold(before, name),
    ensures
        names_hold(after, name),
{
    let k = choose|k: int| 0 <= k < before.len() && (#[trigger] before[k])@ == name;
    before.to_multiset_ensures();
    after.to_multiset_ensures();
    assert(before.contains(before[k]));
    assert(before.to_multiset().count(before[k]) > 0);
    assert(after.to_multiset().count(before[k]) > 0);
    assert(after.contains(before[k]));
    let m = choose|m: int| 0 <= m < after.len() && after[m] == before[k];
    assert(after[m]@ == name);
}

/// Whether every collection that the animation draws frames from is loaded.
pub open spec fn all_loaded(animation: Animation, collections: Seq<Collection>) -> bool {
    forall|name: Seq<char>|
        #[trigger] animation_uses(animation, name) ==> has_collection(collections, name)
}

/// Whether `list` holds the collections that the animation draws its frames
/// from: for each name that a frame carries the first collection so named,
/// each once, in the order of their names.
pub open spec fn is_collection_list(
    animation: Animation,
    collections: Seq<Collection>,
    list: Seq<&Collection>,
) -> bool {
    &&& forall|k: int|
        0 <= k < list.len() ==> animation_uses(animation, (#[trigger] list[k]).name@)
            && exists|i: int|
            is_first_collection(collections, list[k].name@, i) && *list[k]
                == #[trigger] collections[i]
    &&& forall|name: Seq<char>| #[trigger]
        animation_uses(animation, name) ==> exists|k: int|
            0 <= k < list.len() && (#[trigger] list[k]).name@ == name
    &&& forall|a: int, b: int|
        0 <= a < b < list.len() ==> precedes((#[trigger] list[a]).name@, (#[trigger] list[b]).name@)
            && list[a].name@ != list[b].name@
}

/// The collections that the animation draws its frames from, each once, in the
/// order of their names. `None` when a frame belongs to a collection that is
/// not loaded.
pub fn collections_of_animation<'a>(
    animation: &Animation,
    collections: &'a Vec<Collection>,
) -> (found: Option<Vec<&'a Collection>>)
    ensures
        found is Some <==> all_loaded(*animation, collections@),
        found matches Some(list) ==> is_collection_list(*animation, collections@, list@),
{
    let mut names = used_names(animation);
    let ghost gathered = names@;
    let name_of = |name: &String| -> (copy: String)
        ensures
            copy@ == name@,
        {
            name.clone()
        };
    sort_by_name(&mut names, name_of);
    proof {
        assert forall|name: Seq<char>| names_hold(names@, name) <==> animation_uses(
            *animation,
            name,
        ) by {
            if names_hold(names@, name) {
                lemma_same_names(names@, gathered, name);
            }
            if names_hold(gathered, name) {
                lemma_same_names(gathered, names@, name);
            }
        }
        assert forall|i: int, j: int| 0 <= i < j < names@.len() implies precedes(
            (#[trigger] names@[i])@,
            (#[trigger] names@[j])@,
        ) by {
            assert(names_in_order(name_of, names@[i], names@[j]));
            let (a, b) = choose|a: String, b: String|
                #[trigger] call_ensures(name_of, (&names@[i],), a) && #[trigger] call_ensures(
                    name_of,
                    (&names@[j],),
                    b,
                ) && precedes(a@, b@);
            assert(a@ == names@[i]@ && b@ == names@[j]@);
        }
    }
    let mut unique: Vec<String> = Vec::new();
    let mut list: Vec<&'a Collection> = Vec::new();
    let mut i: usize = 0;
    while i < names.len()
        invariant
            i <= names@.len(),
            unique@.len() == list@.len(),
            forall|a: int, b: int|
                0 <= a < b < names@.len() ==> precedes(
                    (#[trigger] names@[a])@,
                    (#[trigger] names@[b])@,
                ),
            forall|name: Seq<char>| names_hold(names@, name) <==> animation_uses(*animation, name),
            forall|k: int|
                0 <= k < unique@.len() ==> exists|m: int|
                    0 <= m < i && (#[trigger] names@[m])@ == (#[trigger] unique@[k])@,
            forall|k: int|
                0 <= k < unique@.len() ==> (#[trigger] list@[k]).name@ == unique@[k]@
                    && exists|c: int|
                    is_first_collection(collections@, list@[k].name@, c) && *list@[k]
                        == #[trigger] collections@[c],
            forall|m: int| 0 <= m < i ==> names_hold(unique@, (#[trigger] names@[m])@),
            forall|m: int| 0 <= m < i ==> has_collection(collections@, (#[trigger] names@[m])@),
            forall|a: int, b: int|
                0 <= a < b < unique@.len() ==> precedes(
                    (#[trigger] unique@[a])@,
                    (#[trigger] unique@[b])@,
                ) && unique@[a]@ != unique@[b]@,
        decreases names.len() - i,
    {
        let ghost before = unique@;
        let ghost before_list = list@;
        let ghost this = names@[i as int]@;
        let position = find_collection(names[i].as_str(), collections);
        let c = match position {
            Some(c) => c,
            None => {
                proof {
                    assert(names_hold(names@, this));
                    assert(animation_uses(*animation, this) && !has_collection(collections@, this));
                }
                return None;
            },
        };
        assert(collections@[c as int].name@ == this);
        assert(has_collection(collections@, this));
        let fresh = !holds_name(&unique, &names[i]);
        if fresh {
            proof {
                assert forall|a: int| 0 <= a < before.len() implies precedes(
                    (#[trigger] before[a])@,
                    this,
                ) && before[a]@ != this by {
                    let m = choose|m: int| 0 <= m < i && (#[trigger] names@[m])@ == before[a]@;
                    assert(precedes(names@[m]@, names@[i as int]@));
                    if before[a]@ == this {
                        assert(names_hold(before, this));
                    }
                }
            }
            unique.push(names[i].clone());
            list.push(&collections[c]);
            assert(unique@[unique@.len() - 1]@ == this);
            assert(list@[list@.len() - 1] == &collections@[c as int]);
        }
        proof {
            assert(names_hold(unique@, this)) by {
                if fresh {
                    assert(unique@[unique@.len() - 1]@ == this);
                } else {
                    let k = choose|k: int| 0 <= k < before.len() && (#[trigger] before[k])@ == this;
                    assert(unique@[k]@ == this);
                }
            }
            assert forall|m: int| 0 <= m < i + 1 implies names_hold(
                unique@,
                (#[trigger] names@[m])@,
            ) by {
                if m < i {
                    assert(names_hold(before, names@[m]@));
                    let k = choose|k: int|
                        0 <= k < before.len() && (#[trigger] before[k])@ == names@[m]@;
                    assert(unique@[k]@ == names@[m]@);
                }
            }
            assert forall|k: int| 0 <= k < unique@.len() implies exists|m: int|
                0 <= m < i + 1 && (#[trigger] names@[m])@ == (#[trigger] unique@[k])@ by {
                if k < before.len() {
                    let m = choose|m: int| 0 <= m < i && (#[trigger] names@[m])@ == before[k]@;
                    assert(0 <= m < i + 1 && names@[m]@ == unique@[k]@);
                } else {
                    assert(names@[i as int]@ == unique@[k]@);
                }
            }
            assert forall|k: int| 0 <= k < unique@.len() implies (#[trigger] list@[k]).name@
                == unique@[k]@ && exists|c: int|
                is_first_collection(collections@, list@[k].name@, c) && *list@[k]
                    == #[trigger] collections@[c] by {
                if k < before.len() {
                    assert(list@[k] == before_list[k]);
                    assert(before_list[k].name@ == before[k]@);
                } else {
                    assert(is_first_collection(collections@, list@[k].name@, c as int) && *list@[k]
                        == collections@[c as int]);
                }
            }
        }
        i += 1;
    }
    proof {
        assert forall|name: Seq<char>| #[trigger]
            animation_uses(*animation, name) implies has_collection(collections@, name) && exists|
            k: int,
        | 0 <= k < list@.len() && (#[trigger] list@[k]).name@ == name by {
            assert(names_hold(names@, name));
            let m = choose|m: int| 0 <= m < names@.len() && (#[trigger] names@[m])@ == name;
            assert(names_hold(unique@, names@[m]@));
            let k = choose|k: int| 0 <= k < unique@.len() && (#[trigger] unique@[k])@ == name;
            assert(list@[k].name@ == name);
        }
        assert forall|a: int, b: int| 0 <= a < b < list@.len() implies precedes(
            (#[trigger] list@[a]).name@,
            (#[trigger] list@[b]).name@,
        ) && list@[a].name@ != list@[b].name@ by {
            assert(precedes(unique@[a]@, unique@[b]@) && unique@[a]@ != unique@[b]@);
        }
        assert forall|k: int| 0 <= k < list@.len() implies animation_uses(
            *animation,
            (#[trigger] list@[k]).name@,
        ) && exists|i: int|
            is_first_collection(collections@, list@[k].name@, i) && *list@[k]
                == #[trigger] collections@[i] by {
            let m = choose|m: int|
                0 <= m < names@.len() && (#[trigger] names@[m])@ == unique@[k]@;
            assert(names_hold(names@, unique@[k]@));
        }
    }
    Some(list)
}

/// The collections that the first animation named `animation_name` draws its
/// frames from, as [`collections_of_animation`] gives them. `None` when there
/// is no such animation, or when one of its frames belongs to a collection
/// that is not loaded.
pub fn get_collections_from_animation_name<'a>(
    animation_name: &str,
    animations: &Vec<Animation>,
    collections: &'a Vec<Collection>,
) -> (found: Option<Vec<&'a Collection>>)
    ensures
        found is Some <==> exists|i: int|
            is_first_animation(animations@, animation_name@, i) && all_loaded(
                #[trigger] animations@[i],
                collections@,
            ),
        found matches Some(list) ==> exists|i: int|
            is_first_animation(animations@, animation_name@, i) && is_collection_list(
                #[trigger] animations@[i],
                collections@,
                list@,
            ),
{
    match get_animation(animation_name, animations) {
        Some(animation) => {
            let found = collections_of_animation(animation, collections);
            proof {
                let first = choose|i: int|
                    is_first_animation(animations@, animation_name@, i) && *animation
                        == #[trigger] animations@[i];
                assert forall|i: int| is_first_animation(animations@, animation_name@, i) implies i
                    == first by {
                    if i < first {
                        assert(animations@[i].name@ != animation_name@);
                    }
                    if first < i {
                        assert(animations@[first].name@ != animation_name@);
                    }
                }
                if found is Some {
                    assert(is_first_animation(animations@, animation_name@, first) && all_loaded(
                        animations@[first],
                        collections@,
                    ));
                }
            }
            found
        },
        None => {
            proof {
                assert forall|i: int| is_first_animation(animations@, animation_name@, i) implies false by {
                    assert(animations@[i].name@ == animation_name@);
                }
            }
            None
        },
    }
}

} // verus!
