//! Compositing a frame image into its region of an atlas.
//!
//! Frame images and the atlas placement of a sprite count rows from the bottom,
//! while bitmaps count them from the top. A frame pixel is addressed here by its
//! column `i` and its row `j` counted from the bottom of the frame.

use crate::bitmap::{Bitmap, Color, Raster};
use crate::sprite::{Placement, Sprite};
use vstd::prelude::*;

verus! {

/// Whether frame pixel `(i, j)` lies in the sprite's trim window.
pub open spec fn in_trim_window(p: Placement, i: int, j: int) -> bool {
    p.xr <= i < p.xr + p.width && p.yr <= j < p.yr + p.height
}

/// The atlas pixel (column, row from the top) that frame pixel `(i, j)` is
/// stamped on, in an atlas that is `atlas_height` pixels high. A flipped
/// sprite has its frame columns run along the atlas rows.
pub open spec fn destination(p: Placement, atlas_height: int, i: int, j: int) -> (int, int) {
    if p.flipped {
        (p.x + j - p.yr, atlas_height - (p.y + i) - 1 + p.xr)
    } else {
        (p.x + i - p.xr, atlas_height - (p.y + j) - 1 + p.yr)
    }
}

/// The frame pixel `(i, j)` whose destination is the atlas pixel `(x, y)`.
pub open spec fn source(p: Placement, atlas_height: int, x: int, y: int) -> (int, int) {
    if p.flipped {
        (atlas_height - 1 + p.xr - p.y - y, x - p.x + p.yr)
    } else {
        (x - p.x + p.xr, atlas_height - 1 + p.yr - p.y - y)
    }
}

/// Whether compositing writes frame pixel `(i, j)` into an atlas of the given
/// size: the pixel exists in the frame, lies in the trim window, and its
/// destination lies inside the atlas.
pub open spec fn is_written(
    frame: Raster,
    p: Placement,
    atlas_width: int,
    atlas_height: int,
    i: int,
    j: int,
) -> bool {
    let (x, y) = destination(p, atlas_height, i, j);
    &&& frame.contains(i, j)
    &&& in_trim_window(p, i, j)
    &&& 0 <= x < atlas_width
    &&& 0 <= y < atlas_height
}

/// Whether the trim window of a sprite placed by `p` lies inside a frame of
/// the given size.
pub open spec fn window_fits(p: Placement, frame: Raster) -> bool {
    &&& 0 <= p.xr
    &&& 0 <= p.yr
    &&& 0 <= p.width
    &&& 0 <= p.height
    &&& p.xr + p.width <= frame.width
    &&& p.yr + p.height <= frame.height
}

/// The colour of the trimmed artwork at column `i` and row `j` of the trim
/// window, rows counted from the top of the window.
pub open spec fn trimmed_at(p: Placement, frame: Raster, i: int, j: int) -> Color {
    frame.at(p.xr + i, frame.height - p.yr - p.height + j)
}

/// The colour that frame pixel `(i, j)` carries: the frame is sampled in the
/// row `j` counted from its bottom.
pub open spec fn sample(frame: Raster, i: int, j: int) -> Color {
    frame.at(i, frame.height - j - 1)
}

/// The canvas after the frame pixels of column `column` in rows `0..rows` have
/// been composited into it.
pub open spec fn composited_cells(
    canvas: Raster,
    frame: Raster,
    p: Placement,
    column: int,
    rows: int,
) -> Raster {
    Raster {
        width: canvas.width,
        height: canvas.height,
        pixels: Map::new(
            |k: (int, int)| canvas.contains(k.0, k.1),
            |k: (int, int)|
                {
                    let (i, j) = source(p, canvas.height as int, k.0, k.1);
                    if i == column && j < rows && frame.contains(i, j) && in_trim_window(p, i, j) {
                        sample(frame, i, j)
                    } else {
                        canvas.at(k.0, k.1)
                    }
                },
        ),
    }
}

/// The canvas after the frame columns `from..to` have been composited into it.
pub open spec fn composited_columns(
    canvas: Raster,
    frame: Raster,
    p: Placement,
    from: int,
    to: int,
) -> Raster {
    Raster {
        width: canvas.width,
        height: canvas.height,
        pixels: Map::new(
            |k: (int, int)| canvas.contains(k.0, k.1),
            |k: (int, int)|
                {
                    let (i, j) = source(p, canvas.height as int, k.0, k.1);
                    if from <= i < to && frame.contains(i, j) && in_trim_window(p, i, j) {
                        sample(frame, i, j)
                    } else {
                        canvas.at(k.0, k.1)
                    }
                },
        ),
    }
}

/// The canvas after the whole frame has been composited into it: every atlas
/// pixel that is the destination of a frame pixel in the trim window takes
/// that pixel's colour, and every other atlas pixel keeps its own.
pub open spec fn composited(canvas: Raster, frame: Raster, p: Placement) -> Raster {
    composited_columns(canvas, frame, p, 0, frame.width as int)
}

/// `source` undoes `destination`, and `destination` undoes `source`, for
/// flipped and unflipped sprites alike.
pub proof fn lemma_source_inverts_destination(p: Placement, atlas_height: int, i: int, j: int)
    ensures
        ({
            let (x, y) = destination(p, atlas_height, i, j);
            source(p, atlas_height, x, y) == (i, j)
        }),
        ({
            let (a, b) = source(p, atlas_height, i, j);
            destination(p, atlas_height, a, b) == (i, j)
        }),
{
}

/// Computes what compositing does with frame pixel `(i, j)`: the atlas pixel
/// to overwrite and the colour to write there, or `None` when the pixel is not
/// written.
pub fn composite_pixel(
    frame: &Bitmap,
    sprite: &Sprite,
    atlas_width: u32,
    atlas_height: u32,
    i: u32,
    j: u32,
) -> (write: Option<(u32, u32, Color)>)
    ensures
        write is Some <==> is_written(
            frame@,
            sprite@.placement,
            atlas_width as int,
            atlas_height as int,
            i as int,
            j as int,
        ),
        write matches Some((x, y, color)) ==> {
            &&& (x as int, y as int) == destination(
                sprite@.placement,
                atlas_height as int,
                i as int,
                j as int,
            )
            &&& color == sample(frame@, i as int, j as int)
        },
    no_unwind
{
    let frame_width = frame.width();
    let frame_height = frame.height();
    if i >= frame_width || j >= frame_height {
        return None;
    }
    let column = i as i64;
    let row = j as i64;
    let xr = sprite.xr as i64;
    let yr = sprite.yr as i64;
    if column < xr || column >= xr + sprite.width as i64 || row < yr || row >= yr
        + sprite.height as i64 {
        return None;
    }
    let x = if sprite.flipped {
        sprite.x as i64 + row - yr
    } else {
        sprite.x as i64 + column - xr
    };
    let y = if sprite.flipped {
        atlas_height as i64 - (sprite.y as i64 + column) - 1 + xr
    } else {
        atlas_height as i64 - (sprite.y as i64 + row) - 1 + yr
    };
    if x < 0 || x >= atlas_width as i64 || y < 0 || y >= atlas_height as i64 {
        return None;
    }
    Some((x as u32, y as u32, frame.get(i, frame_height - j - 1)))
}

/// Composites one column of the frame into the canvas.
pub fn composite_column(canvas: &mut Bitmap, frame: &Bitmap, sprite: &Sprite, column: u32)
    ensures
        final(canvas)@ == composited_columns(
            old(canvas)@,
            frame@,
            sprite@.placement,
            column as int,
            column + 1,
        ),
    no_unwind
{
    let atlas_width = canvas.width();
    let atlas_height = canvas.height();
    let frame_height = frame.height();
    let ghost start = canvas@;
    let ghost p = sprite@.placement;
    assert(canvas@.pixels =~= composited_cells(start, frame@, p, column as int, 0).pixels);
    let mut j: u32 = 0;
    while j < frame_height
        invariant
            j <= frame_height,
            frame_height == frame@.height,
            atlas_width == start.width,
            atlas_height == start.height,
            p == sprite@.placement,
            canvas@ == composited_cells(start, frame@, p, column as int, j as int),
        decreases frame_height - j,
    {
        let ghost before = canvas@;
        match composite_pixel(frame, sprite, atlas_width, atlas_height, column, j) {
            Some((x, y, color)) => {
                canvas.put(x, y, color);
            },
            None => {},
        }
        proof {
            let after = composited_cells(start, frame@, p, column as int, j + 1);
            assert forall|k: (int, int)| start.contains(k.0, k.1) implies #[trigger] canvas@.pixels[k]
                == after.pixels[k] by {
                lemma_source_inverts_destination(p, start.height as int, column as int, j as int);
                lemma_source_inverts_destination(p, start.height as int, k.0, k.1);
            }
            assert(canvas@.pixels =~= after.pixels);
        }
        j += 1;
    }
    assert(canvas@.pixels =~= composited_columns(
        start,
        frame@,
        p,
        column as int,
        column + 1,
    ).pixels);
}

/// Composites the frame columns `from..to` onto a canvas that already holds
/// the columns before them.
pub proof fn lemma_columns_compose(
    canvas: Raster,
    frame: Raster,
    p: Placement,
    from: int,
    mid: int,
    to: int,
)
    requires
        from <= mid <= to,
    ensures
        composited_columns(composited_columns(canvas, frame, p, from, mid), frame, p, mid, to)
            == composited_columns(canvas, frame, p, from, to),
{
    let inner = composited_columns(canvas, frame, p, from, mid);
    assert(composited_columns(inner, frame, p, mid, to).pixels =~= composited_columns(
        canvas,
        frame,
        p,
        from,
        to,
    ).pixels);
}

/// Composites no column: a well-formed canvas stays as it is.
pub proof fn lemma_no_columns(canvas: Raster, frame: Raster, p: Placement, at: int)
    requires
        canvas.wf(),
    ensures
        composited_columns(canvas, frame, p, at, at) == canvas,
{
    assert(composited_columns(canvas, frame, p, at, at).pixels =~= canvas.pixels);
}

/// Composites a whole frame into the canvas: each frame pixel inside the trim
/// window is written to its destination when that lies inside the canvas.
pub fn composite_sprite(canvas: &mut Bitmap, frame: &Bitmap, sprite: &Sprite)
    ensures
        final(canvas)@ == composited(old(canvas)@, frame@, sprite@.placement),
    no_unwind
{
    let frame_width = frame.width();
    let ghost start = canvas@;
    let ghost p = sprite@.placement;
    proof {
        lemma_no_columns(start, frame@, p, 0);
    }
    let mut i: u32 = 0;
    while i < frame_width
        invariant
            i <= frame_width,
            frame_width == frame@.width,
            p == sprite@.placement,
            canvas@ == composited_columns(start, frame@, p, 0, i as int),
        decreases frame_width - i,
    {
        composite_column(canvas, frame, sprite, i);
        proof {
            lemma_columns_compose(start, frame@, p, 0, i as int, i + 1);
        }
        i += 1;
    }
}

/// Compositing an unflipped sprite whose trim window lies inside its frame and
/// whose footprint lies inside the canvas copies the trimmed artwork, pixel for
/// pixel, to the rectangle whose top-left corner is at column `x` and at row
/// `height - y - p.height` of the canvas, and leaves every pixel outside that
/// rectangle as it was.
pub proof fn lemma_unflipped_footprint(canvas: Raster, frame: Raster, p: Placement)
    requires
        canvas.wf(),
        !p.flipped,
        window_fits(p, frame),
        0 <= p.x,
        0 <= p.y,
        p.x + p.width <= canvas.width,
        p.y + p.height <= canvas.height,
    ensures
        composited(canvas, frame, p).wf(),
        composited(canvas, frame, p).width == canvas.width,
        composited(canvas, frame, p).height == canvas.height,
        forall|x: int, y: int|
            p.x <= x < p.x + p.width && canvas.height - p.y - p.height <= y < canvas.height - p.y
                ==> #[trigger] composited(canvas, frame, p).at(x, y) == trimmed_at(
                p,
                frame,
                x - p.x,
                y - (canvas.height - p.y - p.height),
            ),
        forall|x: int, y: int|
            canvas.contains(x, y) && !(p.x <= x < p.x + p.width && canvas.height - p.y - p.height
                <= y < canvas.height - p.y) ==> #[trigger] composited(canvas, frame, p).at(x, y)
                == canvas.at(x, y),
{
    let out = composited(canvas, frame, p);
    assert forall|x: int, y: int|
        p.x <= x < p.x + p.width && canvas.height - p.y - p.height <= y < canvas.height
            - p.y implies #[trigger] out.at(x, y) == trimmed_at(
        p,
        frame,
        x - p.x,
        y - (canvas.height - p.y - p.height),
    ) by {
        assert(canvas.contains(x, y));
        assert(out.pixels.dom().contains((x, y)));
    }
    assert forall|x: int, y: int|
        canvas.contains(x, y) && !(p.x <= x < p.x + p.width && canvas.height - p.y - p.height <= y
            < canvas.height - p.y) implies #[trigger] out.at(x, y) == canvas.at(x, y) by {
        assert(out.pixels.dom().contains((x, y)));
    }
}

/// Compositing a flipped sprite whose trim window lies inside its frame and
/// whose footprint lies inside the canvas turns the trimmed artwork by a
/// quarter: the footprint is `p.height` pixels wide and `p.width` pixels high,
/// the columns of the artwork run up the rows of the footprint, and the rows
/// of the artwork run from right to left. Every pixel outside the footprint
/// stays as it was.
pub proof fn lemma_flipped_footprint(canvas: Raster, frame: Raster, p: Placement)
    requires
        canvas.wf(),
        p.flipped,
        window_fits(p, frame),
        0 <= p.x,
        0 <= p.y,
        p.x + p.height <= canvas.width,
        p.y + p.width <= canvas.height,
    ensures
        composited(canvas, frame, p).wf(),
        composited(canvas, frame, p).width == canvas.width,
        composited(canvas, frame, p).height == canvas.height,
        forall|x: int, y: int|
            p.x <= x < p.x + p.height && canvas.height - p.y - p.width <= y < canvas.height - p.y
                ==> #[trigger] composited(canvas, frame, p).at(x, y) == trimmed_at(
                p,
                frame,
                canvas.height - 1 - p.y - y,
                p.height - 1 - (x - p.x),
            ),
        forall|x: int, y: int|
            canvas.contains(x, y) && !(p.x <= x < p.x + p.height && canvas.height - p.y - p.width
                <= y < canvas.height - p.y) ==> #[trigger] composited(canvas, frame, p).at(x, y)
                == canvas.at(x, y),
{
    let out = composited(canvas, frame, p);
    assert forall|x: int, y: int|
        p.x <= x < p.x + p.height && canvas.height - p.y - p.width <= y < canvas.height
            - p.y implies #[trigger] out.at(x, y) == trimmed_at(
        p,
        frame,
        canvas.height - 1 - p.y - y,
        p.height - 1 - (x - p.x),
    ) by {
        assert(canvas.contains(x, y));
        assert(out.pixels.dom().contains((x, y)));
    }
    assert forall|x: int, y: int|
        canvas.contains(x, y) && !(p.x <= x < p.x + p.height && canvas.height - p.y - p.width <= y
            < canvas.height - p.y) implies #[trigger] out.at(x, y) == canvas.at(x, y) by {
        assert(out.pixels.dom().contains((x, y)));
    }
}

} // verus!
