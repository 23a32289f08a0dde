//! Keeping track of sprites whose frame files changed on disk.

use crate::app::{find_collection, has_collection, is_first_collection};
use crate::check::{contains_sprite, lists};
use crate::library::Collection;
use crate::naming::{characters, parse_sprite_id, sprite_number};
use crate::parallel::position_first;
use crate::sprite::{Sprite, SpriteView};
use vstd::prelude::*;

verus! {

/// Whether `c` separates the components of a path.
pub open spec fn is_separator(c: char) -> bool {
    c == '/' || c == '\\'
}

/// The position of the `n`-th separator of `text` at or after `from`, counting
/// from one.
pub open spec fn nth_separator(text: Seq<char>, n: nat, from: int) -> Option<int>
    decreases text.len() - from,
{
    if from < 0 || from >= text.len() || n == 0 {
        None
    } else if is_separator(text[from]) {
        if n == 1 {
            Some(from)
        } else {
            nth_separator(text, (n - 1) as nat, from + 1)
        }
    } else {
        nth_separator(text, n, from + 1)
    }
}

/// Where the component with the given index begins in `text`: at the start
/// for the first, and after the `index`-th separator for the others.
pub open spec fn component_start(text: Seq<char>, index: nat) -> Option<int> {
    if index == 0 {
        Some(0)
    } else {
        match nth_separator(text, index, 0) {
            Some(at) => Some(at + 1),
            None => None,
        }
    }
}

/// Where the component that begins at `start` ends: at the next separator, or
/// at the end of `text`.
pub open spec fn component_end(text: Seq<char>, start: int) -> int {
    match nth_separator(text, 1, start) {
        Some(at) => at,
        None => text.len() as int,
    }
}

/// The component of `path` with the given index, where components are what
/// stands between separators. `None` when the path has too few components.
pub open spec fn component(path: Seq<char>, index: nat) -> Option<Seq<char>> {
    match component_start(path, index) {
        Some(start) => Some(path.subrange(start, component_end(path, start))),
        None => None,
    }
}

/// How many times `-` occurs in `name`.
pub open spec fn dashes(name: Seq<char>) -> nat
    decreases name.len(),
{
    if name.len() == 0 {
        0
    } else {
        dashes(name.drop_last()) + if name.last() == '-' {
            1nat
        } else {
            0nat
        }
    }
}

/// What a changed path says about the sprite library.
#[derive(Debug)]
pub enum PathChange {
    /// The path is not that of a frame: it has fewer than three components,
    /// or its file name fewer than three parts between dashes.
    NotAFrame,
    /// The path is that of a frame whose file name carries no number.
    Malformed,
    /// The frame of this sprite changed.
    Frame(Sprite),
}

/// Whether `path` is that of a frame: its third component is there and
/// holds two dashes or more.
pub open spec fn is_frame_path(path: Seq<char>) -> bool {
    component(path, 2) matches Some(name) && dashes(name) >= 2
}

/// Finds the `n`-th separator at or after `from`.
fn find_separator(text: &Vec<char>, n: usize, from: usize) -> (position: Option<usize>)
    requires
        from <= text.len(),
    ensures
        match position {
            Some(at) => nth_separator(text@, n as nat, from as int) == Some(at as int) && from
                <= at < text.len(),
            None => nth_separator(text@, n as nat, from as int) is None,
        },
{
    if n == 0 {
        return None;
    }
    let mut left: usize = n;
    let mut i: usize = from;
    while i < text.len()
        invariant
            from <= i <= text.len(),
            1 <= left <= n,
            nth_separator(text@, n as nat, from as int) == nth_separator(
                text@,
                left as nat,
                i as int,
            ),
        decreases text.len() - i,
    {
        if text[i] == '/' || text[i] == '\\' {
            if left == 1 {
                return Some(i);
            }
            left -= 1;
        }
        i += 1;
    }
    None
}

/// The component of `path` with the given index, where `/` and `\` separate
/// components. `None` when the path has too few components.
pub fn path_component(path: &str, index: usize) -> (found: Option<String>)
    ensures
        match found {
            Some(text) => component(path@, index as nat) == Some(text@),
            None => component(path@, index as nat) is None,
        },
{
    let chars = characters(path);
    let start: usize = if index == 0 {
        0
    } else {
        match find_separator(&chars, index, 0) {
            Some(at) => at + 1,
            None => {
                return None;
            },
        }
    };
    let end: usize = match find_separator(&chars, 1, start) {
        Some(at) => at,
        None => chars.len(),
    };
    Some(path.substring_char(start, end).to_owned())
}

/// Counts the dashes of `name`, up to two.
fn has_two_dashes(name: &str) -> (enough: bool)
    ensures
        enough == (dashes(name@) >= 2),
{
    let chars = characters(name);
    let mut count: usize = 0;
    let mut i: usize = 0;
    while i < chars.len()
        invariant
            i <= chars.len(),
            count == dashes(chars@.subrange(0, i as int)),
            count <= i,
        decreases chars.len() - i,
    {
        assert(chars@.subrange(0, i + 1).drop_last() =~= chars@.subrange(0, i as int));
        if chars[i] == '-' {
            count += 1;
        }
        i += 1;
    }
    assert(chars@.subrange(0, chars.len() as int) =~= chars@);
    count >= 2
}

/// Reads a changed path, given relative to the sprites folder as
/// `animation/clip/frame`, as a change of a sprite of the collection
/// `collection_name`. Only the sprite's id, name, collection and path are
/// known from the path; its geometry is left at zero.
pub fn changed_sprite(path: &str, collection_name: &str) -> (change: PathChange)
    ensures
        match change {
            PathChange::NotAFrame => !is_frame_path(path@),
            PathChange::Malformed => is_frame_path(path@) && sprite_number(
                component(path@, 2)->0,
            ) is None,
            PathChange::Frame(sprite) => {
                &&& is_frame_path(path@)
                &&& component(path@, 2) == Some(sprite.name@)
                &&& Some(sprite.id) == sprite_number(sprite.name@)
                &&& sprite.collection_name@ == collection_name@
                &&& sprite.path@ == path@
                &&& !sprite.flipped
                &&& sprite.x == 0 && sprite.y == 0 && sprite.xr == 0 && sprite.yr == 0
                &&& sprite.width == 0 && sprite.height == 0
            },
        },
{
    let name = match path_component(path, 2) {
        Some(name) => name,
        None => {
            return PathChange::NotAFrame;
        },
    };
    if !has_two_dashes(name.as_str()) {
        return PathChange::NotAFrame;
    }
    let id = match parse_sprite_id(name.as_str()) {
        Some(id) => id,
        None => {
            return PathChange::Malformed;
        },
    };
    PathChange::Frame(
        Sprite {
            id,
            x: 0,
            y: 0,
            xr: 0,
            yr: 0,
            width: 0,
            height: 0,
            collection_name: collection_name.to_owned(),
            name,
            path: path.to_owned(),
            flipped: false,
        },
    )
}

/// Notes that `sprite` changed, unless that is noted already.
pub fn record_change(changed: &mut Vec<Sprite>, sprite: Sprite)
    ensures
        final(changed)@ == if lists(old(changed)@, sprite@) {
            old(changed)@
        } else {
            old(changed)@.push(sprite)
        },
{
    if !contains_sprite(changed, &sprite) {
        changed.push(sprite);
    }
}

/// Whether `k` is the position of the first sprite with the id `id`.
pub open spec fn is_first_with_id(sprites: Seq<Sprite>, id: u32, k: int) -> bool {
    &&& 0 <= k < sprites.len()
    &&& sprites[k].id == id
    &&& forall|m: int| 0 <= m < k ==> (#[trigger] sprites[m]).id != id
}

/// Whether `found` is the sprite of the library that the changed sprite
/// stands for: the first sprite with its id in the first collection with its
/// collection's name.
pub open spec fn resolves_to(collections: Seq<Collection>, changed: Sprite, found: Sprite) -> bool {
    exists|c: int, k: int|
        is_first_collection(collections, changed.collection_name@, c) && is_first_with_id(
            collections[c].sprites@,
            changed.id,
            k,
        ) && found == #[trigger] collections[c].sprites@[k]
}

/// Whether the library holds a sprite that the changed sprite stands for.
pub open spec fn resolvable(collections: Seq<Collection>, changed: Sprite) -> bool {
    exists|found: Sprite| resolves_to(collections, changed, found)
}

/// The library's sprite that the changed sprite stands for.
pub open spec fn resolved(collections: Seq<Collection>, changed: Sprite) -> Sprite {
    choose|found: Sprite| resolves_to(collections, changed, found)
}

/// The sprites of the library that the changed sprites stand for, in the
/// order of the changes, without those that `already` lists.
pub open spec fn pending(collections: Seq<Collection>, changed: Seq<Sprite>, already: Seq<Sprite>) -> Seq<
    Sprite,
>
    decreases changed.len(),
{
    if changed.len() == 0 {
        Seq::empty()
    } else {
        let rest = pending(collections, changed.drop_last(), already);
        let found = resolved(collections, changed.last());
        if lists(already, found@) {
            rest
        } else {
            rest.push(found)
        }
    }
}

/// A changed sprite stands for at most one sprite of the library.
proof fn lemma_resolution_unique(collections: Seq<Collection>, changed: Sprite, found: Sprite)
    requires
        resolves_to(collections, changed, found),
    ensures
        resolved(collections, changed) == found,
{
    let other = resolved(collections, changed);
    assert(resolves_to(collections, changed, other));
    let (c, k) = choose|c: int, k: int|
        is_first_collection(collections, changed.collection_name@, c) && is_first_with_id(
            collections[c].sprites@,
            changed.id,
            k,
        ) && found == #[trigger] collections[c].sprites@[k];
    let (d, m) = choose|d: int, m: int|
        is_first_collection(collections, changed.collection_name@, d) && is_first_with_id(
            collections[d].sprites@,
            changed.id,
            m,
        ) && other == #[trigger] collections[d].sprites@[m];
    if c < d {
        assert(collections[c].name@ != changed.collection_name@);
    }
    if d < c {
        assert(collections[d].name@ != changed.collection_name@);
    }
    if k < m {
        assert(collections[c].sprites@[k].id != changed.id);
    }
    if m < k {
        assert(collections[c].sprites@[m].id != changed.id);
    }
}

/// Finds the library's sprite that the changed sprite stands for.
pub fn resolve<'a>(collections: &'a Vec<Collection>, changed: &Sprite) -> (found: Option<&'a Sprite>)
    ensures
        match found {
            Some(sprite) => resolves_to(collections@, *changed, *sprite),
            None => !resolvable(collections@, *changed),
        },
{
    let c = match find_collection(changed.collection_name.as_str(), collections) {
        Some(c) => c,
        None => {
            proof {
                if resolvable(collections@, *changed) {
                    let found = resolved(collections@, *changed);
                    assert(resolves_to(collections@, *changed, found));
                    let (d, m) = choose|d: int, m: int|
                        is_first_collection(collections@, changed.collection_name@, d)
                            && is_first_with_id(collections@[d].sprites@, changed.id, m) && found
                            == #[trigger] collections@[d].sprites@[m];
                    assert(collections@[d].name@ == changed.collection_name@);
                }
            }
            return None;
        },
    };
    let id = changed.id;
    let with_id = |sprite: &Sprite| -> (matches: bool)
        ensures
            matches == (sprite.id == id),
        {
            sprite.id == id
        };
    match position_first(&collections[c].sprites, with_id) {
        Some(k) => {
            assert(is_first_with_id(collections@[c as int].sprites@, changed.id, k as int));
            Some(&collections[c].sprites[k])
        },
        None => {
            proof {
                if resolvable(collections@, *changed) {
                    let found = resolved(collections@, *changed);
                    assert(resolves_to(collections@, *changed, found));
                    let (d, m) = choose|d: int, m: int|
                        is_first_collection(collections@, changed.collection_name@, d)
                            && is_first_with_id(collections@[d].sprites@, changed.id, m) && found
                            == #[trigger] collections@[d].sprites@[m];
                    if (c as int) < d {
                        assert(collections@[c as int].name@ != changed.collection_name@);
                    }
                    if d < c {
                        assert(collections@[d].name@ != changed.collection_name@);
                    }
                    assert(collections@[c as int].sprites@[m].id == changed.id);
                }
            }
            None
        },
    }
}

/// The changed sprites that have not been reported yet: each changed sprite is
/// looked up in the library, and those that `already` lists are left out.
/// `None` when a changed sprite stands for no sprite of the library.
pub fn check_for_changed_sprites(
    changed: &Vec<Sprite>,
    already: &Vec<Sprite>,
    collections: &Vec<Collection>,
) -> (fresh: Option<Vec<Sprite>>)
    ensures
        fresh is Some <==> forall|i: int|
            0 <= i < changed@.len() ==> resolvable(collections@, #[trigger] changed@[i]),
        fresh matches Some(list) ==> list@ == pending(collections@, changed@, already@),
{
    let mut list: Vec<Sprite> = Vec::new();
    let mut i: usize = 0;
    while i < changed.len()
        invariant
            i <= changed.len(),
            forall|k: int| 0 <= k < i ==> resolvable(collections@, #[trigger] changed@[k]),
            list@ == pending(collections@, changed@.subrange(0, i as int), already@),
        decreases changed.len() - i,
    {
        let found = match resolve(collections, &changed[i]) {
            Some(found) => found,
            None => {
                return None;
            },
        };
        proof {
            lemma_resolution_unique(collections@, changed@[i as int], *found);
            assert(changed@.subrange(0, i + 1).drop_last() =~= changed@.subrange(0, i as int));
        }
        if !contains_sprite(already, found) {
            list.push(found.clone());
        }
        i += 1;
    }
    assert(changed@.subrange(0, changed@.len() as int) =~= changed@);
    Some(list)
}

/// Whether a noted change outlives the healing of the duplicates of `source`:
/// it concerns another collection and another id.
pub open spec fn outlives(sprite: Sprite, source: Sprite) -> bool {
    sprite.collection_name@ != source.collection_name@ && sprite.id != source.id
}

/// The noted changes that outlive the healing of the duplicates of `source`,
/// in their order.
pub open spec fn outliving(changed: Seq<Sprite>, source: Sprite) -> Seq<Sprite>
    decreases changed.len(),
{
    if changed.len() == 0 {
        Seq::empty()
    } else {
        let rest = outliving(changed.drop_last(), source);
        if outlives(changed.last(), source) {
            rest.push(changed.last())
        } else {
            rest
        }
    }
}

/// Drops the noted changes that the healing of the duplicates of `source` has
/// dealt with.
pub fn forget_replaced(changed: &mut Vec<Sprite>, source: &Sprite)
    ensures
        final(changed)@ == outliving(old(changed)@, *source),
{
    let mut kept: Vec<Sprite> = Vec::new();
    let mut i: usize = 0;
    while i < changed.len()
        invariant
            i <= changed.len(),
            changed@ == old(changed)@,
            kept@ == outliving(changed@.subrange(0, i as int), *source),
        decreases changed.len() - i,
    {
        proof {
            assert(changed@.subrange(0, i + 1).drop_last() =~= changed@.subrange(0, i as int));
        }
        if !(changed[i].collection_name == source.collection_name) && changed[i].id != source.id {
            kept.push(changed[i].clone());
        }
        i += 1;
    }
    assert(changed@.subrange(0, changed@.len() as int) =~= changed@);
    *changed = kept;
}

} // verus!
