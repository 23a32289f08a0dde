//! A sprite paired with its decoded frame image, and the comparison of artwork.

use crate::bitmap::{Bitmap, Color, Raster};
use crate::compose::{composite_sprite, composited, trimmed_at, window_fits};
use crate::sprite::{Placement, Sprite};
use crate::parallel::all_in_range;
use vstd::prelude::*;

verus! {

/// The part of a frame image that holds a sprite's artwork, as a rectangle of
/// the bitmap: `x`, `y` is its top-left pixel, with rows counted from the top.
#[derive(Clone, Copy, Debug, PartialEq, Eq, Structural)]
pub struct TrimWindow {
    pub x: u32,
    pub y: u32,
    pub width: u32,
    pub height: u32,
}

/// Whether two frames show the same artwork in their trim windows: the windows
/// have the same size and agree pixel for pixel.
pub open spec fn same_trimmed_pixels(p: Placement, frame: Raster, q: Placement, other: Raster) -> bool {
    &&& p.width == q.width
    &&& p.height == q.height
    &&& forall|i: int, j: int|
        0 <= i < p.width && 0 <= j < p.height ==> #[trigger] trimmed_at(p, frame, i, j)
            == trimmed_at(q, other, i, j)
}

/// Whether column `i` of the two trim windows agrees in its first `rows` rows.
pub open spec fn same_trimmed_column(
    p: Placement,
    frame: Raster,
    q: Placement,
    other: Raster,
    i: int,
    rows: int,
) -> bool {
    forall|j: int| 0 <= j < rows ==> #[trigger] trimmed_at(p, frame, i, j) == trimmed_at(q, other, i, j)
}

/// How the artwork of a sprite placed by `source` is stamped on the frame of a
/// sprite placed by `target`: the source's trim window goes, unflipped, to
/// where the target's trim window begins.
pub open spec fn transfer(source: Placement, target: Placement) -> Placement {
    Placement {
        x: target.xr,
        y: target.yr,
        xr: source.xr,
        yr: source.yr,
        width: source.width,
        height: source.height,
        flipped: false,
    }
}

/// Whether the source's trim window, put where the target's begins, lies
/// inside the target's frame.
pub open spec fn transfer_fits(source: Placement, target: Placement, target_frame: Raster) -> bool {
    target.xr + source.width <= target_frame.width && target.yr + source.height
        <= target_frame.height
}

/// A sprite together with its decoded frame image. The sprite's trim window
/// always lies inside the image.
pub struct SpriteImage {
    sprite: Sprite,
    image: Bitmap,
}

impl SpriteImage {
    #[verifier::type_invariant]
    spec fn fits(self) -> bool {
        window_fits(self.sprite@.placement, self.image@)
    }

    /// The sprite, as a mathematical value.
    pub closed spec fn sprite_view(self) -> crate::sprite::SpriteView {
        self.sprite@
    }

    /// The frame image, as a mathematical value.
    pub closed spec fn image_view(self) -> Raster {
        self.image@
    }

    /// Whether the two show the same artwork: they belong to the same
    /// collection and their trimmed pixels agree exactly. Placement in the
    /// atlas and the flip flag play no part.
    pub open spec fn same_artwork(self, other: SpriteImage) -> bool {
        &&& self.sprite_view().collection_name == other.sprite_view().collection_name
        &&& same_trimmed_pixels(
            self.sprite_view().placement,
            self.image_view(),
            other.sprite_view().placement,
            other.image_view(),
        )
    }

    /// Pairs a sprite with its frame image. Returns `None` when the trim
    /// window does not lie inside the image.
    pub fn new(sprite: Sprite, image: Bitmap) -> (r: Option<SpriteImage>)
        ensures
            r is Some <==> window_fits(sprite@.placement, image@),
            r matches Some(paired) ==> paired.sprite_view() == sprite@ && paired.image_view()
                == image@,
    {
        let width = image.width();
        let height = image.height();
        if sprite.xr >= 0 && sprite.yr >= 0 && sprite.width >= 0 && sprite.height >= 0
            && sprite.xr as i64 + sprite.width as i64 <= width as i64 && sprite.yr as i64
            + sprite.height as i64 <= height as i64 {
            Some(SpriteImage { sprite, image })
        } else {
            None
        }
    }

    /// The sprite.
    pub fn sprite(&self) -> (s: &Sprite)
        ensures
            s@ == self.sprite_view(),
    {
        &self.sprite
    }

    /// The frame image.
    pub fn image(&self) -> (b: &Bitmap)
        ensures
            b@ == self.image_view(),
    {
        &self.image
    }

    /// Takes the pair apart.
    pub fn into_parts(self) -> (parts: (Sprite, Bitmap))
        ensures
            parts.0@ == self.sprite_view(),
            parts.1@ == self.image_view(),
            window_fits(parts.0@.placement, parts.1@),
    {
        proof {
            use_type_invariant(&self);
        }
        (self.sprite, self.image)
    }

    /// The rectangle of the image that holds the artwork.
    pub fn trim(&self) -> (window: TrimWindow)
        ensures
            window.x == self.sprite_view().placement.xr,
            window.y == self.image_view().height - self.sprite_view().placement.yr
                - self.sprite_view().placement.height,
            window.width == self.sprite_view().placement.width,
            window.height == self.sprite_view().placement.height,
            window.x + window.width <= self.image_view().width,
            window.y + window.height <= self.image_view().height,
    {
        proof {
            use_type_invariant(self);
        }
        let height = self.image.height();
        TrimWindow {
            x: self.sprite.xr as u32,
            y: height - self.sprite.yr as u32 - self.sprite.height as u32,
            width: self.sprite.width as u32,
            height: self.sprite.height as u32,
        }
    }

    /// Whether the artwork of `source`, put where this sprite's trim window
    /// begins, lies inside this frame.
    pub fn accepts(&self, source: &SpriteImage) -> (fits: bool)
        ensures
            fits == transfer_fits(
                source.sprite_view().placement,
                self.sprite_view().placement,
                self.image_view(),
            ),
    {
        proof {
            use_type_invariant(self);
            use_type_invariant(source);
        }
        let width = self.image.width();
        let height = self.image.height();
        self.sprite.xr as i64 + source.sprite.width as i64 <= width as i64 && self.sprite.yr as i64
            + source.sprite.height as i64 <= height as i64
    }

    /// Overwrites this frame's artwork with the artwork of `source`, which is
    /// composited into this frame where this sprite's trim window begins.
    /// Returns `false`, and changes nothing, when the source's artwork would
    /// reach beyond this frame.
    pub fn replace_artwork(&mut self, source: &SpriteImage) -> (replaced: bool)
        ensures
            replaced == transfer_fits(
                source.sprite_view().placement,
                old(self).sprite_view().placement,
                old(self).image_view(),
            ),
            final(self).sprite_view() == old(self).sprite_view(),
            final(self).image_view() == if replaced {
                composited(
                    old(self).image_view(),
                    source.image_view(),
                    transfer(source.sprite_view().placement, old(self).sprite_view().placement),
                )
            } else {
                old(self).image_view()
            },
    {
        proof {
            use_type_invariant(&*self);
            use_type_invariant(source);
        }
        if !self.accepts(source) {
            return false;
        }
        let stamp = Sprite {
            id: source.sprite.id,
            x: self.sprite.xr,
            y: self.sprite.yr,
            xr: source.sprite.xr,
            yr: source.sprite.yr,
            width: source.sprite.width,
            height: source.sprite.height,
            collection_name: String::new(),
            name: String::new(),
            path: String::new(),
            flipped: false,
        };
        composite_sprite(&mut self.image, &source.image, &stamp);
        true
    }

    /// Compares column `i` of the two trim windows, which must have the same
    /// height.
    pub fn column_equals(&self, other: &SpriteImage, i: u32) -> (equal: bool)
        requires
            i < self.sprite_view().placement.width,
            i < other.sprite_view().placement.width,
            self.sprite_view().placement.height == other.sprite_view().placement.height,
        ensures
            equal == same_trimmed_column(
                self.sprite_view().placement,
                self.image_view(),
                other.sprite_view().placement,
                other.image_view(),
                i as int,
                self.sprite_view().placement.height,
            ),
    {
        let a = self.trim();
        let b = other.trim();
        let (left_width, left_height) = (self.image.width(), self.image.height());
        let (right_width, right_height) = (other.image.width(), other.image.height());
        let ghost p = self.sprite@.placement;
        let ghost q = other.sprite@.placement;
        let mut j: u32 = 0;
        while j < a.height
            invariant
                j <= a.height,
                a.height == b.height,
                p == self.sprite@.placement,
                q == other.sprite@.placement,
                left_width == self.image@.width,
                left_height == self.image@.height,
                right_width == other.image@.width,
                right_height == other.image@.height,
                a.height == p.height,
                i < a.width,
                i < b.width,
                a.x == p.xr,
                b.x == q.xr,
                p.height == q.height,
                a.y == self.image@.height - p.yr - p.height,
                b.y == other.image@.height - q.yr - q.height,
                a.x + a.width <= self.image@.width,
                a.y + a.height <= self.image@.height,
                b.x + b.width <= other.image@.width,
                b.y + b.height <= other.image@.height,
                same_trimmed_column(p, self.image@, q, other.image@, i as int, j as int),
            decreases a.height - j,
        {
            let left = self.image.get(a.x + i, a.y + j);
            let right = other.image.get(b.x + i, b.y + j);
            if left != right {
                assert(trimmed_at(p, self.image@, i as int, j as int) != trimmed_at(
                    q,
                    other.image@,
                    i as int,
                    j as int,
                ));
                return false;
            }
            j += 1;
        }
        true
    }

    /// Whether the two show the same artwork. The comparison is exact, with no
    /// tolerance, and ignores where and how the sprites are placed.
    pub fn equals(&self, other: &SpriteImage) -> (equal: bool)
        ensures
            equal == self.same_artwork(*other),
    {
        if !(self.sprite.collection_name == other.sprite.collection_name) {
            return false;
        }
        let a = self.trim();
        let b = other.trim();
        if a.width != b.width || a.height != b.height {
            return false;
        }
        let ghost p = self.sprite@.placement;
        let ghost q = other.sprite@.placement;
        let column_matches = |i: u32| -> (same: bool)
            requires
                i < a.width,
            ensures
                same == same_trimmed_column(
                    self.sprite@.placement,
                    self.image@,
                    other.sprite@.placement,
                    other.image@,
                    i as int,
                    self.sprite@.placement.height,
                ),
            {
                self.column_equals(other, i)
            };
        let equal = all_in_range(a.width, column_matches);
        proof {
            if equal {
                assert forall|i: int, j: int| 0 <= i < p.width && 0 <= j < p.height implies #[trigger] trimmed_at(
                    p, self.image@, i, j) == trimmed_at(q, other.image@, i, j) by {
                    assert(call_ensures(column_matches, (i as u32,), true));
                    assert(same_trimmed_column(p, self.image@, q, other.image@, i, p.height));
                }
            } else {
                let i = choose|i: u32| i < a.width && call_ensures(column_matches, (i,), false);
                assert(!same_trimmed_column(p, self.image@, q, other.image@, i as int, p.height));
            }
        }
        equal
    }
}

/// Showing the same artwork is an equivalence: every sprite image shows the
/// same artwork as itself, the relation holds in both directions or in
/// neither, and it carries over a common third image.
pub proof fn lemma_same_artwork_is_equivalence(a: SpriteImage, b: SpriteImage, c: SpriteImage)
    ensures
        a.same_artwork(a),
        a.same_artwork(b) == b.same_artwork(a),
        a.same_artwork(b) && b.same_artwork(c) ==> a.same_artwork(c),
{
    let (p, f) = (a.sprite_view().placement, a.image_view());
    let (q, g) = (b.sprite_view().placement, b.image_view());
    let (r, h) = (c.sprite_view().placement, c.image_view());
    if a.same_artwork(b) {
        assert forall|i: int, j: int| 0 <= i < q.width && 0 <= j < q.height implies #[trigger] trimmed_at(
            q, g, i, j) == trimmed_at(p, f, i, j) by {
            assert(trimmed_at(p, f, i, j) == trimmed_at(q, g, i, j));
        }
        if b.same_artwork(c) {
            assert forall|i: int, j: int| 0 <= i < p.width && 0 <= j < p.height implies #[trigger] trimmed_at(
                p, f, i, j) == trimmed_at(r, h, i, j) by {
                assert(trimmed_at(p, f, i, j) == trimmed_at(q, g, i, j));
                assert(trimmed_at(q, g, i, j) == trimmed_at(r, h, i, j));
            }
        }
    }
    if b.same_artwork(a) {
        assert forall|i: int, j: int| 0 <= i < p.width && 0 <= j < p.height implies #[trigger] trimmed_at(
            p, f, i, j) == trimmed_at(q, g, i, j) by {
            assert(trimmed_at(q, g, i, j) == trimmed_at(p, f, i, j));
        }
    }
}

} // verus!
