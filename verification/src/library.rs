//! Collections of sprites and the animations built from them.

use crate::order::{compare_names, name_order};
use crate::sprite::Sprite;
use std::cmp::Ordering;
use vstd::prelude::*;
use vstd::std_specs::cmp::{PartialEqSpecImpl, PartialOrdSpecImpl};

verus! {

/// One atlas: the image at `path` and the sprites placed in it. Two
/// collections with the same name are the same collection.
#[derive(Clone, Debug)]
pub struct Collection {
    pub name: String,
    pub path: String,
    pub sprites: Vec<Sprite>,
}

impl PartialEq for Collection {
    fn eq(&self, other: &Self) -> (equal: bool) {
        self.name == other.name
    }
}

impl PartialEqSpecImpl for Collection {
    open spec fn obeys_eq_spec() -> bool {
        true
    }

    open spec fn eq_spec(&self, other: &Self) -> bool {
        self.name@ == other.name@
    }
}

impl Eq for Collection {

}

impl PartialOrd for Collection {
    fn partial_cmp(&self, other: &Self) -> (order: Option<Ordering>) {
        Some(compare_names(&self.name, &other.name))
    }
}

impl PartialOrdSpecImpl for Collection {
    open spec fn obeys_partial_cmp_spec() -> bool {
        true
    }

    open spec fn partial_cmp_spec(&self, other: &Self) -> Option<Ordering> {
        Some(name_order(self.name@, other.name@))
    }
}

/// A named sequence of frames with its playback position. Two clips with the
/// same name are the same clip.
#[derive(Clone, Debug)]
pub struct Clip {
    pub current_frame_index: u32,
    pub frames: Vec<Sprite>,
    pub frame_names: Vec<String>,
    pub loop_start: u32,
    pub name: String,
    pub num_frames: u32,
}

impl Clip {
    /// Whether the clip's bookkeeping agrees with its frames: one frame name
    /// per frame, in order, and their count.
    pub open spec fn wf(&self) -> bool {
        &&& self.frame_names@.len() == self.frames@.len()
        &&& forall|i: int|
            0 <= i < self.frames@.len() ==> (#[trigger] self.frame_names@[i])@
                == self.frames@[i].name@
        &&& self.num_frames == self.frames@.len()
    }

    /// A clip of the given frames, positioned at its first frame. `None` when
    /// there are more frames than a clip can count.
    pub fn new(name: String, frames: Vec<Sprite>, loop_start: u32) -> (clip: Option<Clip>)
        ensures
            clip is Some <==> frames@.len() <= u32::MAX,
            clip matches Some(c) ==> {
                &&& c.wf()
                &&& c.name == name
                &&& c.frames == frames
                &&& c.loop_start == loop_start
                &&& c.current_frame_index == 0
            },
    {
        let count = frames.len();
        if count > u32::MAX as usize {
            return None;
        }
        let mut frame_names: Vec<String> = Vec::new();
        let mut i: usize = 0;
        while i < count
            invariant
                i <= count,
                count == frames@.len(),
                frame_names@.len() == i,
                forall|k: int| 0 <= k < i ==> (#[trigger] frame_names@[k])@ == frames@[k].name@,
            decreases count - i,
        {
            frame_names.push(frames[i].name.clone());
            i += 1;
        }
        Some(
            Clip {
                current_frame_index: 0,
                frames,
                frame_names,
                loop_start,
                name,
                num_frames: count as u32,
            },
        )
    }
}

impl PartialEq for Clip {
    fn eq(&self, other: &Self) -> (equal: bool) {
        self.name == other.name
    }
}

impl PartialEqSpecImpl for Clip {
    open spec fn obeys_eq_spec() -> bool {
        true
    }

    open spec fn eq_spec(&self, other: &Self) -> bool {
        self.name@ == other.name@
    }
}

impl Eq for Clip {

}

impl PartialOrd for Clip {
    fn partial_cmp(&self, other: &Self) -> (order: Option<Ordering>) {
        Some(compare_names(&self.name, &other.name))
    }
}

impl PartialOrdSpecImpl for Clip {
    open spec fn obeys_partial_cmp_spec() -> bool {
        true
    }

    open spec fn partial_cmp_spec(&self, other: &Self) -> Option<Ordering> {
        Some(name_order(self.name@, other.name@))
    }
}

/// The clips of one animated character. Two animations with the same name
/// are the same animation.
#[derive(Clone, Debug)]
pub struct Animation {
    pub clips: Vec<Clip>,
    pub name: String,
}

impl PartialEq for Animation {
    fn eq(&self, other: &Self) -> (equal: bool) {
        self.name == other.name
    }
}

impl PartialEqSpecImpl for Animation {
    open spec fn obeys_eq_spec() -> bool {
        true
    }

    open spec fn eq_spec(&self, other: &Self) -> bool {
        self.name@ == other.name@
    }
}

impl Eq for Animation {

}

impl PartialOrd for Animation {
    fn partial_cmp(&self, other: &Self) -> (order: Option<Ordering>) {
        Some(compare_names(&self.name, &other.name))
    }
}

impl PartialOrdSpecImpl for Animation {
    open spec fn obeys_partial_cmp_spec() -> bool {
        true
    }

    open spec fn partial_cmp_spec(&self, other: &Self) -> Option<Ordering> {
        Some(name_order(self.name@, other.name@))
    }
}

/// A named set of clips. Two libraries with the same name are the same
/// library.
#[derive(Clone, Debug)]
pub struct Library {
    pub clips: Vec<Clip>,
    pub name: String,
}

impl PartialEq for Library {
    fn eq(&self, other: &Self) -> (equal: bool) {
        self.name == other.name
    }
}

impl PartialEqSpecImpl for Library {
    open spec fn obeys_eq_spec() -> bool {
        true
    }

    open spec fn eq_spec(&self, other: &Self) -> bool {
        self.name@ == other.name@
    }
}

impl Eq for Library {

}

impl PartialOrd for Library {
    fn partial_cmp(&self, other: &Self) -> (order: Option<Ordering>) {
        Some(compare_names(&self.name, &other.name))
    }
}

impl PartialOrdSpecImpl for Library {
    open spec fn obeys_partial_cmp_spec() -> bool {
        true
    }

    open spec fn partial_cmp_spec(&self, other: &Self) -> Option<Ordering> {
        Some(name_order(self.name@, other.name@))
    }
}

} // verus!
