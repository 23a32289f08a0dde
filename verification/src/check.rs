//! The consistency check: sprites of one collection that share an id must show
//! the same artwork.

use crate::frame::{lemma_same_artwork_is_equivalence, SpriteImage};
use crate::naming::{parse_sprite_id, sprite_number};
use crate::sprite::{Sprite, SpriteView};
use vstd::prelude::*;

verus! {

/// Why a check could not be carried out.
#[derive(Clone, Copy, Debug, PartialEq, Eq, Structural)]
pub enum CheckError {
    /// The name of this sprite, in this collection, carries no number.
    MalformedName { collection: usize, sprite: usize },
}

/// Whether the sprites at `a` and `b` share an id.
pub open spec fn same_group(images: Seq<SpriteImage>, a: int, b: int) -> bool {
    images[a].sprite_view().id == images[b].sprite_view().id
}

/// Whether the group of the sprite at `i` holds two members whose artwork
/// differs.
pub open spec fn conflicted(images: Seq<SpriteImage>, i: int) -> bool {
    exists|j: int, k: int|
        0 <= j < images.len() && 0 <= k < images.len() && same_group(images, i, j) && same_group(
            images,
            i,
            k,
        ) && !#[trigger] images[j].same_artwork(images[k])
}

/// Whether the check of one collection reports the sprite `sprite`: it is a
/// member of a group that holds differing artwork.
pub open spec fn reported(images: Seq<SpriteImage>, sprite: SpriteView) -> bool {
    exists|i: int|
        0 <= i < images.len() && #[trigger] images[i].sprite_view() == sprite && conflicted(
            images,
            i,
        )
}

/// Whether the check of some collection reports `sprite`.
pub open spec fn reported_in_any(collections: Seq<Vec<SpriteImage>>, sprite: SpriteView) -> bool {
    exists|c: int| 0 <= c < collections.len() && reported(#[trigger] collections[c]@, sprite)
}

/// Whether `sprite` occurs in `list`.
pub open spec fn lists(list: Seq<Sprite>, sprite: SpriteView) -> bool {
    exists|k: int| 0 <= k < list.len() && #[trigger] list[k]@ == sprite
}

/// Whether no sprite occurs twice in `list`.
pub open spec fn distinct(list: Seq<Sprite>) -> bool {
    forall|a: int, b: int| 0 <= a < b < list.len() ==> #[trigger] list[a]@ != #[trigger] list[b]@
}

/// The sprites of `list`, as mathematical values.
pub open spec fn views(list: Seq<Sprite>) -> Seq<SpriteView> {
    list.map_values(|sprite: Sprite| sprite@)
}

/// The report on the first `count` sprites of a collection: the reported
/// sprites among them in the order of the collection, each where it first
/// occurs.
pub open spec fn report_of(images: Seq<SpriteImage>, count: nat) -> Seq<SpriteView>
    decreases count,
{
    if count == 0 {
        Seq::empty()
    } else {
        let rest = report_of(images, (count - 1) as nat);
        let sprite = images[count - 1].sprite_view();
        if conflicted(images, count - 1) && !rest.contains(sprite) {
            rest.push(sprite)
        } else {
            rest
        }
    }
}

/// The list `gathered` followed by those of the first `count` sprites of
/// `part` that it does not hold yet.
pub open spec fn merged(gathered: Seq<SpriteView>, part: Seq<SpriteView>, count: nat) -> Seq<SpriteView>
    decreases count,
{
    if count == 0 {
        gathered
    } else {
        let rest = merged(gathered, part, (count - 1) as nat);
        if rest.contains(part[count - 1]) {
            rest
        } else {
            rest.push(part[count - 1])
        }
    }
}

/// The report on the first `count` collections: their reports one after the
/// other, without the sprites that an earlier report holds.
pub open spec fn full_report_of(collections: Seq<Vec<SpriteImage>>, count: nat) -> Seq<SpriteView>
    decreases count,
{
    if count == 0 {
        Seq::empty()
    } else {
        let images = collections[count - 1]@;
        let part = report_of(images, images.len());
        merged(full_report_of(collections, (count - 1) as nat), part, part.len())
    }
}

/// A list holds a sprite exactly when the list of its values holds the
/// sprite's value.
pub proof fn lemma_lists_views(list: Seq<Sprite>, sprite: SpriteView)
    ensures
        lists(list, sprite) <==> views(list).contains(sprite),
{
    if lists(list, sprite) {
        let k = choose|k: int| 0 <= k < list.len() && #[trigger] list[k]@ == sprite;
        assert(views(list)[k] == sprite);
    }
    if views(list).contains(sprite) {
        let k = choose|k: int| 0 <= k < views(list).len() && views(list)[k] == sprite;
        assert(list[k]@ == sprite);
    }
}

/// Whether `found` is the report on one collection: it lists each reported
/// sprite once and nothing else.
pub open spec fn is_report(images: Seq<SpriteImage>, found: Seq<Sprite>) -> bool {
    &&& distinct(found)
    &&& forall|sprite: SpriteView| lists(found, sprite) <==> reported(images, sprite)
}

/// Whether `found` is the report on several collections: it lists each sprite
/// that the check of one of them reports, once, and nothing else.
pub open spec fn is_full_report(collections: Seq<Vec<SpriteImage>>, found: Seq<Sprite>) -> bool {
    &&& distinct(found)
    &&& forall|sprite: SpriteView| lists(found, sprite) <==> reported_in_any(collections, sprite)
}

/// Whether the name of the sprite at `i` carries a number.
pub open spec fn well_named(images: Seq<SpriteImage>, i: int) -> bool {
    sprite_number(images[i].sprite_view().name) is Some
}

/// Whether `f` is the first member of the group of the sprite at `i`.
pub open spec fn is_head(images: Seq<SpriteImage>, f: int, i: int) -> bool {
    &&& 0 <= f <= i
    &&& same_group(images, f, i)
    &&& forall|j: int| 0 <= j < f ==> !#[trigger] same_group(images, j, i)
}

/// The first member of the group of the sprite at `i`.
pub open spec fn head(images: Seq<SpriteImage>, i: int) -> int {
    choose|f: int| is_head(images, f, i)
}

/// Whether the sprite at `j` differs from the first member of its group.
pub open spec fn differs_from_head(images: Seq<SpriteImage>, j: int) -> bool {
    !images[head(images, j)].same_artwork(images[j])
}

/// A group has exactly one first member.
proof fn lemma_head_unique(images: Seq<SpriteImage>, f: int, i: int)
    requires
        0 <= i < images.len(),
        is_head(images, f, i),
    ensures
        head(images, i) == f,
{
    let g = head(images, i);
    assert(is_head(images, g, i));
    if g < f {
        assert(!same_group(images, g, i));
    }
    if f < g {
        assert(!same_group(images, f, i));
    }
}

/// Every sprite has a group head, and members of one group share it.
proof fn lemma_head_exists(images: Seq<SpriteImage>, i: int)
    requires
        0 <= i < images.len(),
    ensures
        is_head(images, head(images, i), i),
    decreases i,
{
    if exists|j: int| 0 <= j < i && same_group(images, j, i) {
        let j = choose|j: int| 0 <= j < i && same_group(images, j, i);
        lemma_head_exists(images, j);
        let f = head(images, j);
        assert forall|m: int| 0 <= m < f implies !#[trigger] same_group(images, m, i) by {
            assert(!same_group(images, m, j));
        }
        assert(is_head(images, f, i));
    } else {
        assert(is_head(images, i, i));
    }
}

/// Members of one group have the same head.
proof fn lemma_head_shared(images: Seq<SpriteImage>, i: int, j: int)
    requires
        0 <= i < images.len(),
        0 <= j < images.len(),
        same_group(images, i, j),
    ensures
        head(images, i) == head(images, j),
        is_head(images, head(images, i), i),
{
    lemma_head_exists(images, i);
    lemma_head_exists(images, j);
    let f = head(images, i);
    let g = head(images, j);
    if f < g {
        assert(!same_group(images, f, j));
    }
    if g < f {
        assert(!same_group(images, g, i));
    }
}

/// A group holds differing artwork exactly when one of its members differs
/// from the group's first member.
proof fn lemma_conflicted_by_head(images: Seq<SpriteImage>, i: int)
    requires
        0 <= i < images.len(),
    ensures
        conflicted(images, i) <==> exists|j: int|
            0 <= j < images.len() && same_group(images, i, j) && #[trigger] differs_from_head(
                images,
                j,
            ),
{
    let by_head = exists|j: int|
        0 <= j < images.len() && same_group(images, i, j) && #[trigger] differs_from_head(
            images,
            j,
        );
    if by_head {
        let j = choose|j: int|
            0 <= j < images.len() && same_group(images, i, j) && #[trigger] differs_from_head(
                images,
                j,
            );
        lemma_head_shared(images, i, j);
        let f = head(images, j);
        assert(same_group(images, i, f));
        assert(!images[f].same_artwork(images[j]));
    }
    if conflicted(images, i) && !by_head {
        let (j, k) = choose|j: int, k: int|
            0 <= j < images.len() && 0 <= k < images.len() && same_group(images, i, j)
                && same_group(images, i, k) && !#[trigger] images[j].same_artwork(images[k]);
        lemma_head_shared(images, i, j);
        lemma_head_shared(images, i, k);
        let f = head(images, i);
        assert(!differs_from_head(images, j));
        assert(!differs_from_head(images, k));
        lemma_same_artwork_is_equivalence(images[f], images[j], images[k]);
        lemma_same_artwork_is_equivalence(images[j], images[f], images[k]);
    }
}

/// Finds the first member of the group of the sprite at `i`.
fn group_head(images: &Vec<SpriteImage>, i: usize) -> (f: usize)
    requires
        i < images.len(),
    ensures
        f == head(images@, i as int),
        f <= i,
{
    let id = images[i].sprite().id;
    let mut f: usize = 0;
    while f < i && images[f].sprite().id != id
        invariant
            f <= i,
            i < images.len(),
            id == images@[i as int].sprite_view().id,
            forall|j: int| 0 <= j < f ==> !#[trigger] same_group(images@, j, i as int),
        decreases i - f,
    {
        f += 1;
    }
    proof {
        lemma_head_unique(images@, f as int, i as int);
    }
    f
}

/// Whether `list` holds `sprite`.
pub fn contains_sprite(list: &Vec<Sprite>, sprite: &Sprite) -> (found: bool)
    ensures
        found == lists(list@, sprite@),
{
    let mut k: usize = 0;
    while k < list.len()
        invariant
            k <= list.len(),
            forall|m: int| 0 <= m < k ==> #[trigger] list@[m]@ != sprite@,
        decreases list.len() - k,
    {
        if list[k] == *sprite {
            return true;
        }
        k += 1;
    }
    false
}

/// Finds the first sprite whose name carries no number.
fn first_malformed(images: &Vec<SpriteImage>) -> (index: Option<usize>)
    ensures
        match index {
            Some(i) => i < images.len() && !well_named(images@, i as int) && forall|j: int|
                0 <= j < i ==> well_named(images@, j),
            None => forall|j: int| 0 <= j < images.len() ==> well_named(images@, j),
        },
{
    let mut i: usize = 0;
    while i < images.len()
        invariant
            i <= images.len(),
            forall|j: int| 0 <= j < i ==> well_named(images@, j),
        decreases images.len() - i,
    {
        if parse_sprite_id(images[i].sprite().name.as_str()).is_none() {
            return Some(i);
        }
        i += 1;
    }
    None
}

/// Checks one collection, given each of its sprites with its frame image.
///
/// Sprites are grouped by id. Where two members of a group show different
/// artwork, every member of that group is reported, each once. A group of one
/// is never reported. The check fails, reporting nothing, when a sprite's name
/// carries no number; the error then names the first such sprite.
pub fn check_collection(images: &Vec<SpriteImage>) -> (result: Result<Vec<Sprite>, usize>)
    ensures
        match result {
            Ok(found) => {
                &&& forall|j: int| 0 <= j < images.len() ==> well_named(images@, j)
                &&& views(found@) == report_of(images@, images@.len())
                &&& is_report(images@, found@)
            },
            Err(i) => {
                &&& i < images.len()
                &&& !well_named(images@, i as int)
                &&& forall|j: int| 0 <= j < i ==> well_named(images@, j)
            },
        },
{
    match first_malformed(images) {
        Some(i) => {
            return Err(i);
        },
        None => {},
    }
    let count = images.len();
    let mut differs: Vec<bool> = Vec::new();
    let mut j: usize = 0;
    while j < count
        invariant
            j <= count,
            count == images.len(),
            differs.len() == j,
            forall|m: int| 0 <= m < j ==> differs@[m] == differs_from_head(images@, m),
        decreases count - j,
    {
        let f = group_head(images, j);
        differs.push(!images[f].equals(&images[j]));
        j += 1;
    }
    let mut found: Vec<Sprite> = Vec::new();
    let mut i: usize = 0;
    while i < count
        invariant
            i <= count,
            count == images.len(),
            differs.len() == count,
            forall|m: int| 0 <= m < count ==> differs@[m] == differs_from_head(images@, m),
            distinct(found@),
            views(found@) == report_of(images@, i as nat),
            forall|sprite: SpriteView|
                lists(found@, sprite) <==> exists|m: int|
                    0 <= m < i && #[trigger] images@[m].sprite_view() == sprite && conflicted(
                        images@,
                        m,
                    ),
        decreases count - i,
    {
        let id = images[i].sprite().id;
        let mut conflict = false;
        let mut k: usize = 0;
        while k < count
            invariant
                k <= count,
                i < count,
                count == images.len(),
                differs.len() == count,
                id == images@[i as int].sprite_view().id,
                forall|m: int| 0 <= m < count ==> differs@[m] == differs_from_head(images@, m),
                conflict <==> exists|m: int|
                    0 <= m < k && same_group(images@, i as int, m) && #[trigger] differs_from_head(
                        images@,
                        m,
                    ),
            decreases count - k,
        {
            if images[k].sprite().id == id && differs[k] {
                conflict = true;
                assert(same_group(images@, i as int, k as int) && differs_from_head(
                    images@,
                    k as int,
                ));
            }
            k += 1;
        }
        proof {
            lemma_conflicted_by_head(images@, i as int);
        }
        let ghost before = found@;
        let ghost this = images@[i as int].sprite_view();
        proof {
            lemma_lists_views(before, this);
        }
        if conflict && !contains_sprite(&found, images[i].sprite()) {
            found.push(images[i].sprite().clone());
            assert(found@[found.len() - 1]@ == this);
            assert(views(found@) =~= views(before).push(this));
            assert forall|a: int, b: int| 0 <= a < b < found@.len() implies #[trigger] found@[a]@
                != #[trigger] found@[b]@ by {
                if b == found@.len() - 1 {
                    assert(before[a]@ != this);
                } else {
                    assert(before[a]@ != before[b]@);
                }
            }
        }
        proof {
            assert forall|sprite: SpriteView|
                lists(found@, sprite) <==> exists|m: int|
                    0 <= m < i + 1 && #[trigger] images@[m].sprite_view() == sprite && conflicted(
                        images@,
                        m,
                    ) by {
                let old_side = exists|m: int|
                    0 <= m < i && #[trigger] images@[m].sprite_view() == sprite && conflicted(
                        images@,
                        m,
                    );
                let new_side = exists|m: int|
                    0 <= m < i + 1 && #[trigger] images@[m].sprite_view() == sprite && conflicted(
                        images@,
                        m,
                    );
                assert(lists(before, sprite) <==> old_side);
                if lists(found@, sprite) {
                    let at = choose|at: int| 0 <= at < found@.len() && #[trigger] found@[at]@ == sprite;
                    if at < before.len() {
                        assert(before[at]@ == sprite);
                        assert(lists(before, sprite));
                        assert(old_side);
                        let m = choose|m: int|
                            0 <= m < i && #[trigger] images@[m].sprite_view() == sprite
                                && conflicted(images@, m);
                        assert(0 <= m < i + 1 && images@[m].sprite_view() == sprite && conflicted(
                            images@,
                            m,
                        ));
                    } else {
                        assert(images@[i as int].sprite_view() == sprite && conflicted(
                            images@,
                            i as int,
                        ));
                    }
                    assert(new_side);
                }
                if new_side {
                    let m = choose|m: int|
                        0 <= m < i + 1 && #[trigger] images@[m].sprite_view() == sprite
                            && conflicted(images@, m);
                    if m < i {
                        assert(old_side);
                        let at = choose|at: int|
                            0 <= at < before.len() && #[trigger] before[at]@ == sprite;
                        assert(found@[at]@ == sprite);
                    } else {
                        assert(conflict);
                        if lists(before, sprite) {
                            let at = choose|at: int|
                                0 <= at < before.len() && #[trigger] before[at]@ == sprite;
                            assert(found@[at]@ == sprite);
                        } else {
                            assert(found@[found@.len() - 1]@ == sprite);
                        }
                    }
                    assert(lists(found@, sprite));
                }
            }
        }
        i += 1;
    }
    Ok(found)
}

/// Checks every collection and gathers what the checks report, each sprite
/// once. Fails, reporting nothing, at the first sprite whose name carries no
/// number.
pub fn check(collections: &Vec<Vec<SpriteImage>>) -> (result: Result<Vec<Sprite>, CheckError>)
    ensures
        match result {
            Ok(found) => {
                &&& forall|c: int, j: int|
                    0 <= c < collections.len() && 0 <= j < collections@[c].len() ==> #[trigger] well_named(
                        collections@[c]@,
                        j,
                    )
                &&& views(found@) == full_report_of(collections@, collections@.len())
                &&& is_full_report(collections@, found@)
            },
            Err(CheckError::MalformedName { collection, sprite }) => {
                &&& collection < collections.len()
                &&& sprite < collections@[collection as int].len()
                &&& !well_named(collections@[collection as int]@, sprite as int)
                &&& forall|j: int|
                    0 <= j < sprite ==> well_named(collections@[collection as int]@, j)
                &&& forall|c: int, j: int|
                    0 <= c < collection && 0 <= j < collections@[c].len() ==> #[trigger] well_named(
                        collections@[c]@,
                        j,
                    )
            },
        },
{
    let mut found: Vec<Sprite> = Vec::new();
    let mut c: usize = 0;
    while c < collections.len()
        invariant
            c <= collections.len(),
            distinct(found@),
            views(found@) == full_report_of(collections@, c as nat),
            forall|d: int, j: int|
                0 <= d < c && 0 <= j < collections@[d].len() ==> #[trigger] well_named(
                    collections@[d]@,
                    j,
                ),
            forall|sprite: SpriteView|
                lists(found@, sprite) <==> exists|d: int|
                    0 <= d < c && reported(#[trigger] collections@[d]@, sprite),
        decreases collections.len() - c,
    {
        let images = &collections[c];
        let part = match check_collection(images) {
            Ok(part) => part,
            Err(sprite) => {
                return Err(CheckError::MalformedName { collection: c, sprite });
            },
        };
        let ghost start = found@;
        let mut k: usize = 0;
        while k < part.len()
            invariant
                k <= part.len(),
                distinct(found@),
                views(found@) == merged(views(start), views(part@), k as nat),
                forall|sprite: SpriteView|
                    lists(found@, sprite) <==> lists(start, sprite) || lists(
                        part@.subrange(0, k as int),
                        sprite,
                    ),
            decreases part.len() - k,
        {
            let ghost before = found@;
            let ghost this = part@[k as int]@;
            proof {
                lemma_lists_views(before, this);
                assert(views(part@)[k as int] == this);
            }
            if !contains_sprite(&found, &part[k]) {
                found.push(part[k].clone());
                assert(found@[found.len() - 1]@ == this);
                assert(views(found@) =~= views(before).push(this));
                assert forall|a: int, b: int| 0 <= a < b < found@.len() implies #[trigger] found@[a]@
                    != #[trigger] found@[b]@ by {
                    if b == found@.len() - 1 {
                        assert(before[a]@ != this);
                    } else {
                        assert(before[a]@ != before[b]@);
                    }
                }
            }
            proof {
                let shorter = part@.subrange(0, k as int);
                let longer = part@.subrange(0, k + 1);
                assert(longer[k as int]@ == this);
                assert forall|sprite: SpriteView|
                    lists(found@, sprite) <==> lists(start, sprite) || lists(longer, sprite) by {
                    assert(lists(before, sprite) <==> lists(start, sprite) || lists(
                        shorter,
                        sprite,
                    ));
                    if lists(found@, sprite) {
                        let at = choose|at: int|
                            0 <= at < found@.len() && #[trigger] found@[at]@ == sprite;
                        if at < before.len() {
                            assert(before[at]@ == sprite);
                            assert(lists(before, sprite));
                            if lists(shorter, sprite) {
                                let m = choose|m: int|
                                    0 <= m < shorter.len() && #[trigger] shorter[m]@ == sprite;
                                assert(longer[m]@ == sprite);
                            }
                        }
                    }
                    if lists(longer, sprite) {
                        let m = choose|m: int| 0 <= m < longer.len() && #[trigger] longer[m]@ == sprite;
                        if m < k {
                            assert(shorter[m]@ == sprite);
                            assert(lists(shorter, sprite));
                        }
                    }
                    if lists(before, sprite) {
                        let at = choose|at: int|
                            0 <= at < before.len() && #[trigger] before[at]@ == sprite;
                        assert(found@[at]@ == sprite);
                    }
                    if sprite == this && !lists(before, sprite) {
                        assert(found@[found@.len() - 1]@ == sprite);
                    }
                }
            }
            k += 1;
        }
        proof {
            assert(part@.subrange(0, part.len() as int) =~= part@);
            assert(views(part@).len() == part@.len());
            assert forall|sprite: SpriteView|
                lists(found@, sprite) <==> exists|d: int|
                    0 <= d < c + 1 && reported(#[trigger] collections@[d]@, sprite) by {
                let earlier = exists|d: int|
                    0 <= d < c && reported(#[trigger] collections@[d]@, sprite);
                assert(lists(start, sprite) <==> earlier);
                assert(lists(part@, sprite) <==> reported(collections@[c as int]@, sprite));
                if earlier {
                    let d = choose|d: int|
                        0 <= d < c && reported(#[trigger] collections@[d]@, sprite);
                    assert(0 <= d < c + 1 && reported(collections@[d]@, sprite));
                }
                if exists|d: int| 0 <= d < c + 1 && reported(#[trigger] collections@[d]@, sprite) {
                    let d = choose|d: int|
                        0 <= d < c + 1 && reported(#[trigger] collections@[d]@, sprite);
                    if d < c {
                        assert(earlier);
                    }
                }
            }
        }
        c += 1;
    }
    Ok(found)
}

/// A group whose members all show the same artwork is not in conflict. In
/// particular a group of one never is.
pub proof fn lemma_consistent_group_not_conflicted(images: Seq<SpriteImage>, i: int)
    requires
        0 <= i < images.len(),
        forall|j: int, k: int|
            0 <= j < images.len() && 0 <= k < images.len() && same_group(images, i, j)
                && same_group(images, i, k) ==> #[trigger] images[j].same_artwork(images[k]),
    ensures
        !conflicted(images, i),
{
}

/// A sprite that shares its id with no other sprite is not in conflict.
pub proof fn lemma_single_member_not_conflicted(images: Seq<SpriteImage>, i: int)
    requires
        0 <= i < images.len(),
        forall|j: int| 0 <= j < images.len() && j != i ==> !same_group(images, i, j),
    ensures
        !conflicted(images, i),
{
    lemma_same_artwork_is_equivalence(images[i], images[i], images[i]);
}

/// Where two members of a group differ, every member of the group is
/// reported: the two that differ and each one that shares their id.
pub proof fn lemma_conflict_reports_whole_group(images: Seq<SpriteImage>, j: int, k: int, m: int)
    requires
        0 <= j < images.len(),
        0 <= k < images.len(),
        0 <= m < images.len(),
        same_group(images, j, k),
        same_group(images, j, m),
        !images[j].same_artwork(images[k]),
    ensures
        conflicted(images, m),
        reported(images, images[m].sprite_view()),
{
    assert(same_group(images, m, j) && same_group(images, m, k) && !images[j].same_artwork(
        images[k],
    ));
}

/// Two reports on the same collections list the same sprites, whatever their
/// order: checking again changes nothing.
pub proof fn lemma_reports_agree(
    collections: Seq<Vec<SpriteImage>>,
    first: Seq<Sprite>,
    second: Seq<Sprite>,
)
    requires
        is_full_report(collections, first),
        is_full_report(collections, second),
    ensures
        forall|sprite: SpriteView| lists(first, sprite) <==> lists(second, sprite),
        first.len() == second.len(),
{
    lemma_distinct_lists_same_length(first, second);
}

/// Two lists without repetition that hold the same sprites are equally long.
proof fn lemma_distinct_lists_same_length(first: Seq<Sprite>, second: Seq<Sprite>)
    requires
        distinct(first),
        distinct(second),
        forall|sprite: SpriteView| lists(first, sprite) ==> lists(second, sprite),
        forall|sprite: SpriteView| lists(second, sprite) ==> lists(first, sprite),
    ensures
        first.len() == second.len(),
{
    lemma_distinct_sublist_shorter(first, second);
    lemma_distinct_sublist_shorter(second, first);
}

/// A list without repetition is no longer than a list that holds all its
/// sprites.
proof fn lemma_distinct_sublist_shorter(first: Seq<Sprite>, second: Seq<Sprite>)
    requires
        distinct(first),
        forall|sprite: SpriteView| lists(first, sprite) ==> lists(second, sprite),
    ensures
        first.len() <= second.len(),
    decreases first.len(),
{
    if first.len() > 0 {
        let last = first.last()@;
        assert(first[first.len() - 1]@ == last);
        assert(lists(first, last));
        let at = choose|at: int| 0 <= at < second.len() && #[trigger] second[at]@ == last;
        let shorter = first.drop_last();
        let rest = second.remove(at);
        assert forall|a: int, b: int| 0 <= a < b < shorter.len() implies #[trigger] shorter[a]@
            != #[trigger] shorter[b]@ by {
            assert(first[a]@ != first[b]@);
        }
        assert forall|sprite: SpriteView| lists(shorter, sprite) implies lists(rest, sprite) by {
            let k = choose|k: int| 0 <= k < shorter.len() && #[trigger] shorter[k]@ == sprite;
            assert(first[k]@ == sprite);
            assert(first[k]@ != first[first.len() - 1]@);
            assert(lists(first, sprite));
            let m = choose|m: int| 0 <= m < second.len() && #[trigger] second[m]@ == sprite;
            if m < at {
                assert(rest[m]@ == sprite);
            } else {
                assert(rest[m - 1]@ == sprite);
            }
        }
        lemma_distinct_sublist_shorter(shorter, rest);
    }
}

} // verus!
