//! Atlas packing and consistency checking for libraries of 2D sprite collections.
//!
//! A collection is one atlas image together with the sprites placed in it. The
//! crate composites frame images into their recorded atlas regions, compares the
//! artwork of sprites that share an id, and copies artwork from one frame to its
//! duplicates.

pub mod app;
pub mod bitmap;
pub mod changes;
pub mod check;
pub mod compose;
pub mod frame;
pub mod info;
pub mod library;
pub mod naming;
pub mod order;
pub mod pack;
pub mod parallel;
pub mod replace;
pub mod settings;
pub mod sprite;
