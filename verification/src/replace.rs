//! Healing duplicates: overwriting the artwork of every sprite that shares an
//! id with a chosen source sprite.

use crate::compose::{composited, trimmed_at, window_fits};
use crate::frame::{transfer, transfer_fits, SpriteImage};
use crate::sprite::{Sprite, SpriteView};
use vstd::prelude::*;

verus! {

/// Why artwork could not be replaced.
#[derive(Clone, Copy, Debug, PartialEq, Eq, Structural)]
pub enum ReplaceError {
    /// The source's artwork would reach beyond the frame of this target.
    DoesNotFit { target: usize },
}

/// Whether the sprite at `i` is a duplicate of `source` that is to be
/// overwritten: it shares the source's id and is not the source itself.
pub open spec fn is_duplicate(sprites: Seq<Sprite>, source: SpriteView, i: int) -> bool {
    0 <= i < sprites.len() && sprites[i]@.id == source.id && sprites[i]@ != source
}

/// The positions, in ascending order, of the duplicates of `source` among
/// `sprites`.
pub fn duplicates_of(source: &Sprite, sprites: &Vec<Sprite>) -> (positions: Vec<usize>)
    ensures
        forall|k: int| 0 <= k < positions.len() ==> is_duplicate(sprites@, source@, positions@[k] as int),
        forall|i: int|
            is_duplicate(sprites@, source@, i) ==> exists|k: int|
                0 <= k < positions.len() && positions@[k] == i,
        forall|a: int, b: int| 0 <= a < b < positions.len() ==> positions@[a] < positions@[b],
{
    let mut positions: Vec<usize> = Vec::new();
    let mut i: usize = 0;
    while i < sprites.len()
        invariant
            i <= sprites.len(),
            forall|k: int|
                0 <= k < positions.len() ==> positions@[k] < i && is_duplicate(
                    sprites@,
                    source@,
                    positions@[k] as int,
                ),
            forall|m: int|
                0 <= m < i && is_duplicate(sprites@, source@, m) ==> exists|k: int|
                    0 <= k < positions.len() && positions@[k] == m,
            forall|a: int, b: int| 0 <= a < b < positions.len() ==> positions@[a] < positions@[b],
        decreases sprites.len() - i,
    {
        let ghost before = positions@;
        if sprites[i].id == source.id && !(sprites[i] == *source) {
            positions.push(i);
            assert(positions@[positions.len() - 1] == i);
        }
        proof {
            assert forall|m: int|
                0 <= m < i + 1 && is_duplicate(sprites@, source@, m) implies exists|k: int|
                0 <= k < positions.len() && positions@[k] == m by {
                if m < i {
                    let k = choose|k: int| 0 <= k < before.len() && before[k] == m;
                    assert(positions@[k] == m);
                } else {
                    assert(positions@[positions.len() - 1] == m);
                }
            }
        }
        i += 1;
    }
    positions
}

/// Overwrites the artwork of `target` with that of `source`. Fails, changing
/// nothing, when the source's artwork would reach beyond the target's frame.
pub fn replace_sprite(source: &SpriteImage, target: &mut SpriteImage) -> (replaced: bool)
    ensures
        replaced == transfer_fits(
            source.sprite_view().placement,
            old(target).sprite_view().placement,
            old(target).image_view(),
        ),
        final(target).sprite_view() == old(target).sprite_view(),
        final(target).image_view() == if replaced {
            composited(
                old(target).image_view(),
                source.image_view(),
                transfer(source.sprite_view().placement, old(target).sprite_view().placement),
            )
        } else {
            old(target).image_view()
        },
{
    target.replace_artwork(source)
}

/// Whether the source's artwork fits the frame of every target.
pub open spec fn all_fit(source: SpriteImage, targets: Seq<SpriteImage>) -> bool {
    forall|i: int|
        0 <= i < targets.len() ==> transfer_fits(
            source.sprite_view().placement,
            (#[trigger] targets[i]).sprite_view().placement,
            targets[i].image_view(),
        )
}

/// Overwrites the artwork of every target with that of `source`, or of none:
/// when the source's artwork would reach beyond the frame of some target, the
/// first such target is named and nothing is changed.
pub fn replace_all(source: &SpriteImage, targets: &mut Vec<SpriteImage>) -> (result: Result<
    (),
    ReplaceError,
>)
    ensures
        final(targets).len() == old(targets).len(),
        match result {
            Ok(()) => {
                &&& all_fit(*source, old(targets)@)
                &&& forall|i: int|
                    0 <= i < old(targets).len() ==> {
                        &&& (#[trigger] final(targets)@[i]).sprite_view() == old(
                            targets,
                        )@[i].sprite_view()
                        &&& final(targets)@[i].image_view() == composited(
                            old(targets)@[i].image_view(),
                            source.image_view(),
                            transfer(
                                source.sprite_view().placement,
                                old(targets)@[i].sprite_view().placement,
                            ),
                        )
                    }
            },
            Err(ReplaceError::DoesNotFit { target }) => {
                &&& target < old(targets).len()
                &&& !transfer_fits(
                    source.sprite_view().placement,
                    old(targets)@[target as int].sprite_view().placement,
                    old(targets)@[target as int].image_view(),
                )
                &&& forall|i: int|
                    0 <= i < target ==> transfer_fits(
                        source.sprite_view().placement,
                        (#[trigger] old(targets)@[i]).sprite_view().placement,
                        old(targets)@[i].image_view(),
                    )
                &&& final(targets)@ == old(targets)@
            },
        },
{
    let count = targets.len();
    let mut i: usize = 0;
    while i < count
        invariant
            i <= count,
            count == targets.len(),
            targets@ == old(targets)@,
            forall|k: int|
                0 <= k < i ==> transfer_fits(
                    source.sprite_view().placement,
                    (#[trigger] targets@[k]).sprite_view().placement,
                    targets@[k].image_view(),
                ),
        decreases count - i,
    {
        if !targets[i].accepts(source) {
            return Err(ReplaceError::DoesNotFit { target: i });
        }
        i += 1;
    }
    let mut i: usize = 0;
    while i < count
        invariant
            i <= count,
            count == targets.len(),
            count == old(targets).len(),
            all_fit(*source, old(targets)@),
            forall|k: int| i <= k < count ==> targets@[k] == old(targets)@[k],
            forall|k: int|
                0 <= k < i ==> {
                    &&& (#[trigger] targets@[k]).sprite_view() == old(targets)@[k].sprite_view()
                    &&& targets@[k].image_view() == composited(
                        old(targets)@[k].image_view(),
                        source.image_view(),
                        transfer(
                            source.sprite_view().placement,
                            old(targets)@[k].sprite_view().placement,
                        ),
                    )
                },
        decreases count - i,
    {
        targets[i].replace_artwork(source);
        i += 1;
    }
    Ok(())
}

/// After a duplicate's artwork has been replaced, it shows the source's
/// artwork: where the two trim windows have the same size and the sprites
/// belong to one collection, the healed duplicate and its source compare as
/// equal.
pub proof fn lemma_replaced_shows_source_artwork(
    source: SpriteImage,
    before: SpriteImage,
    after: SpriteImage,
)
    requires
        window_fits(source.sprite_view().placement, source.image_view()),
        window_fits(before.sprite_view().placement, before.image_view()),
        source.sprite_view().placement.width == before.sprite_view().placement.width,
        source.sprite_view().placement.height == before.sprite_view().placement.height,
        source.sprite_view().collection_name == before.sprite_view().collection_name,
        after.sprite_view() == before.sprite_view(),
        after.image_view() == composited(
            before.image_view(),
            source.image_view(),
            transfer(source.sprite_view().placement, before.sprite_view().placement),
        ),
    ensures
        after.same_artwork(source),
{
    let p = source.sprite_view().placement;
    let q = before.sprite_view().placement;
    let healed = after.image_view();
    assert forall|i: int, j: int| 0 <= i < q.width && 0 <= j < q.height implies #[trigger] trimmed_at(
        q,
        healed,
        i,
        j,
    ) == trimmed_at(p, source.image_view(), i, j) by {
        let x = q.xr + i;
        let y = healed.height - q.yr - q.height + j;
        assert(before.image_view().contains(x, y));
        assert(healed.pixels.dom().contains((x, y)));
    }
}

} // verus!
