//! Sprites: frames placed in an atlas.

use vstd::prelude::*;
use vstd::std_specs::cmp::PartialEqSpecImpl;

verus! {

/// One frame placed in an atlas.
///
/// `x` and `y` give the placement in the atlas, counted from its bottom-left
/// corner. `width` and `height` are the size of the trimmed artwork, and `xr`,
/// `yr` say how far that trim window is inset from the bottom-left corner of
/// the full frame image. Sprites that show the same artwork share an `id`.
#[derive(Debug)]
pub struct Sprite {
    pub id: u32,
    pub x: i32,
    pub y: i32,
    pub xr: i32,
    pub yr: i32,
    pub width: i32,
    pub height: i32,
    pub collection_name: String,
    pub name: String,
    pub path: String,
    pub flipped: bool,
}

/// Where a sprite's trim window lies in its frame and in the atlas.
pub struct Placement {
    pub x: int,
    pub y: int,
    pub xr: int,
    pub yr: int,
    pub width: int,
    pub height: int,
    pub flipped: bool,
}

/// The mathematical value of a [`Sprite`].
pub struct SpriteView {
    pub id: u32,
    pub placement: Placement,
    pub collection_name: Seq<char>,
    pub name: Seq<char>,
    pub path: Seq<char>,
}

impl View for Sprite {
    type V = SpriteView;

    open spec fn view(&self) -> SpriteView {
        SpriteView {
            id: self.id,
            placement: Placement {
                x: self.x as int,
                y: self.y as int,
                xr: self.xr as int,
                yr: self.yr as int,
                width: self.width as int,
                height: self.height as int,
                flipped: self.flipped,
            },
            collection_name: self.collection_name@,
            name: self.name@,
            path: self.path@,
        }
    }
}

impl Clone for Sprite {
    fn clone(&self) -> (copy: Self)
        ensures
            copy == *self,
    {
        Sprite {
            id: self.id,
            x: self.x,
            y: self.y,
            xr: self.xr,
            yr: self.yr,
            width: self.width,
            height: self.height,
            collection_name: self.collection_name.clone(),
            name: self.name.clone(),
            path: self.path.clone(),
            flipped: self.flipped,
        }
    }
}

impl PartialEq for Sprite {
    fn eq(&self, other: &Self) -> (equal: bool) {
        self.id == other.id && self.x == other.x && self.y == other.y && self.xr == other.xr
            && self.yr == other.yr && self.width == other.width && self.height == other.height
            && self.collection_name == other.collection_name && self.name == other.name
            && self.path == other.path && self.flipped == other.flipped
    }
}

impl PartialEqSpecImpl for Sprite {
    open spec fn obeys_eq_spec() -> bool {
        true
    }

    open spec fn eq_spec(&self, other: &Self) -> bool {
        self@ == other@
    }
}

impl Eq for Sprite {

}

} // verus!
