//! The sprite table of an atlas folder: one column per property, one row per
//! sprite.

use crate::sprite::Sprite;
use vstd::prelude::*;

verus! {

/// The sprites of an atlas folder, stored column by column.
#[derive(Clone, Debug)]
pub struct SpriteInfo {
    pub id: Vec<u32>,
    pub x: Vec<i32>,
    pub y: Vec<i32>,
    pub xr: Vec<i32>,
    pub yr: Vec<i32>,
    pub width: Vec<i32>,
    pub height: Vec<i32>,
    pub collection_name: Vec<String>,
    pub path: Vec<String>,
    pub flipped: Vec<bool>,
}

/// Whether `part` occurs in `whole` as a run of consecutive characters.
pub open spec fn occurs_in(part: Seq<char>, whole: Seq<char>) -> bool {
    exists|start: int|
        0 <= start && start + part.len() <= whole.len() && #[trigger] whole.subrange(
            start,
            start + part.len(),
        ) == part
}

/// Asks `std::path::Path::file_name` for the final component of a path.
/// There may be none; where there is one, it is a piece of the path's text.
#[verifier::external_body]
fn file_name(path: &str) -> (name: Option<String>)
    ensures
        name matches Some(text) ==> occurs_in(text@, path@),
{
    match std::path::Path::new(path).file_name() {
        Some(name) => match name.to_str() {
            Some(text) => Some(text.to_string()),
            None => None,
        },
        None => None,
    }
}

impl SpriteInfo {
    /// Whether every column has a row `index`.
    pub open spec fn has_row(&self, index: int) -> bool {
        &&& 0 <= index < self.id@.len()
        &&& index < self.x@.len()
        &&& index < self.y@.len()
        &&& index < self.xr@.len()
        &&& index < self.yr@.len()
        &&& index < self.width@.len()
        &&& index < self.height@.len()
        &&& index < self.collection_name@.len()
        &&& index < self.path@.len()
        &&& index < self.flipped@.len()
    }

    /// Whether `sprite` is row `index` of the table, under the name `name`.
    pub open spec fn is_row(&self, index: int, name: Seq<char>, sprite: Sprite) -> bool {
        &&& sprite.id == self.id@[index]
        &&& sprite.x == self.x@[index]
        &&& sprite.y == self.y@[index]
        &&& sprite.xr == self.xr@[index]
        &&& sprite.yr == self.yr@[index]
        &&& sprite.width == self.width@[index]
        &&& sprite.height == self.height@[index]
        &&& sprite.collection_name@ == self.collection_name@[index]@
        &&& sprite.name@ == name
        &&& sprite.path@ == self.path@[index]@
        &&& sprite.flipped == self.flipped@[index]
    }

    /// Whether every column has a row `index`.
    pub fn contains_row(&self, index: usize) -> (present: bool)
        ensures
            present == self.has_row(index as int),
    {
        index < self.id.len() && index < self.x.len() && index < self.y.len() && index
            < self.xr.len() && index < self.yr.len() && index < self.width.len() && index
            < self.height.len() && index < self.collection_name.len() && index < self.path.len()
            && index < self.flipped.len()
    }

    /// Row `index` as a sprite with the given name.
    pub fn row(&self, index: usize, name: String) -> (sprite: Sprite)
        requires
            self.has_row(index as int),
        ensures
            self.is_row(index as int, name@, sprite),
    {
        Sprite {
            id: self.id[index],
            x: self.x[index],
            y: self.y[index],
            xr: self.xr[index],
            yr: self.yr[index],
            width: self.width[index],
            height: self.height[index],
            collection_name: self.collection_name[index].clone(),
            name,
            path: self.path[index].clone(),
            flipped: self.flipped[index],
        }
    }

    /// Row `index` as a sprite, named after the final component of its path.
    /// `None` when the path has no final component.
    pub fn at(&self, index: usize) -> (sprite: Option<Sprite>)
        requires
            self.has_row(index as int),
        ensures
            sprite matches Some(s) ==> self.is_row(index as int, s.name@, s) && occurs_in(
                s.name@,
                self.path@[index as int]@,
            ),
    {
        self.named_row(index, file_name(self.path[index].as_str()))
    }

    /// Row `index` as a sprite under the file name found for its path: with a
    /// name, the row under that name; without one, no sprite.
    pub fn named_row(&self, index: usize, name: Option<String>) -> (sprite: Option<Sprite>)
        requires
            self.has_row(index as int),
        ensures
            sprite is Some <==> name is Some,
            sprite matches Some(s) ==> self.is_row(index as int, name->0@, s),
    {
        match name {
            Some(name) => Some(self.row(index, name)),
            None => None,
        }
    }
}

} // verus!
