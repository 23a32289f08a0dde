//! Packing a collection: compositing every sprite's frame into the atlas, one
//! frame column at a time, with progress reports and cooperative cancellation.
//!
//! A [`PackJob`] decides; its caller does the outside work. The caller reads the
//! frame images from wherever they are kept, looks for a cancellation request
//! before each call of [`PackJob::advance`], forwards the progress it reports,
//! and stores the finished canvas.

use crate::bitmap::{Bitmap, Raster};
use crate::compose::{
    composite_column, composited, composited_columns, lemma_columns_compose, lemma_no_columns,
};
use crate::sprite::Sprite;
use vstd::prelude::*;

verus! {

/// The atlas after the first `count` sprites have been composited into it, in
/// order, each from its own frame.
pub open spec fn packed(atlas: Raster, sprites: Seq<Sprite>, frames: Seq<Raster>, count: nat) -> Raster
    decreases count,
{
    if count == 0 {
        atlas
    } else {
        composited(
            packed(atlas, sprites, frames, (count - 1) as nat),
            frames[count - 1],
            sprites[count - 1]@.placement,
        )
    }
}

/// The share of the sprites that is completed, as a whole percentage.
pub open spec fn percent_done(completed: nat, total: nat) -> nat {
    if total == 0 {
        100
    } else {
        completed * 100 / total
    }
}

/// What a pack job tells its caller after a call of [`PackJob::advance`].
#[derive(Clone, Copy, Debug, PartialEq, Eq, Structural)]
pub enum PackEvent {
    /// The frame image of the sprite with this index is needed next.
    NeedFrame { sprite_index: usize },
    /// One more frame column is composited; the sprite is not complete yet.
    Working,
    /// A sprite is complete; `percent` of the sprites are.
    Progress { percent: usize },
    /// Every sprite is composited: the canvas is ready to be stored.
    Finished,
    /// The job was cancelled: the canvas is to be discarded.
    Cancelled,
}

/// The mathematical state of a pack job.
pub struct PackState {
    /// The atlas the job started from.
    pub atlas: Raster,
    /// The sprites to composite, in order.
    pub sprites: Seq<Sprite>,
    /// The frames supplied so far: one for each completed sprite, and one more
    /// while a sprite is in progress.
    pub frames: Seq<Raster>,
    /// How many sprites are complete.
    pub completed: nat,
    /// How many columns of the frame in progress are composited.
    pub column: nat,
    /// Whether the job was cancelled.
    pub cancelled: bool,
}

impl PackState {
    /// Whether a sprite is being composited.
    pub open spec fn in_progress(self) -> bool {
        self.frames.len() == self.completed + 1
    }

    /// Whether every sprite is complete.
    pub open spec fn finished(self) -> bool {
        self.completed == self.sprites.len()
    }

    pub open spec fn wf(self) -> bool {
        &&& self.completed <= self.sprites.len()
        &&& self.frames.len() == self.completed || self.in_progress()
        &&& self.in_progress() ==> self.completed < self.sprites.len() && self.column
            <= self.frames[self.completed as int].width
        &&& !self.in_progress() ==> self.column == 0
    }

    /// The canvas in this state: the atlas with every completed sprite
    /// composited into it, and the first `column` columns of the sprite in
    /// progress.
    pub open spec fn canvas(self) -> Raster {
        let base = packed(self.atlas, self.sprites, self.frames, self.completed);
        if self.in_progress() {
            composited_columns(
                base,
                self.frames[self.completed as int],
                self.sprites[self.completed as int]@.placement,
                0,
                self.column as int,
            )
        } else {
            base
        }
    }

    /// The state of a job that has just been created.
    pub open spec fn initial(atlas: Raster, sprites: Seq<Sprite>) -> PackState {
        PackState { atlas, sprites, frames: Seq::empty(), completed: 0, column: 0, cancelled: false }
    }

    /// Whether the job waits for the frame of its next sprite.
    pub open spec fn awaits_frame(self) -> bool {
        !self.cancelled && !self.finished() && !self.in_progress()
    }

    /// The state after a frame was offered: it is taken when the job waits
    /// for one, and ignored otherwise.
    pub open spec fn supplied(self, frame: Raster) -> PackState {
        if self.awaits_frame() {
            PackState { frames: self.frames.push(frame), column: 0, ..self }
        } else {
            self
        }
    }

    /// Whether the next call of `advance` completes the sprite in progress.
    pub open spec fn completes_sprite(self) -> bool {
        self.in_progress() && self.column + 1 >= self.frames[self.completed as int].width
    }

    /// The state after one call of `advance`.
    pub open spec fn advanced(self, cancel_requested: bool) -> PackState {
        if self.cancelled || self.finished() {
            self
        } else if cancel_requested {
            PackState { cancelled: true, ..self }
        } else if !self.in_progress() {
            self
        } else if self.completes_sprite() {
            PackState { completed: self.completed + 1, column: 0, ..self }
        } else {
            PackState { column: self.column + 1, ..self }
        }
    }

    /// What one call of `advance` reports.
    pub open spec fn event(self, cancel_requested: bool) -> PackEvent {
        if self.cancelled {
            PackEvent::Cancelled
        } else if self.finished() {
            PackEvent::Finished
        } else if cancel_requested {
            PackEvent::Cancelled
        } else if !self.in_progress() {
            PackEvent::NeedFrame { sprite_index: self.completed as usize }
        } else if self.completes_sprite() {
            PackEvent::Progress {
                percent: percent_done(self.completed + 1, self.sprites.len()) as usize,
            }
        } else {
            PackEvent::Working
        }
    }
}

/// Frames supplied later do not change what was packed before.
pub proof fn lemma_packed_ignores_later_frames(
    atlas: Raster,
    sprites: Seq<Sprite>,
    frames: Seq<Raster>,
    frame: Raster,
    count: nat,
)
    requires
        count <= frames.len(),
    ensures
        packed(atlas, sprites, frames.push(frame), count) == packed(atlas, sprites, frames, count),
    decreases count,
{
    if count > 0 {
        lemma_packed_ignores_later_frames(atlas, sprites, frames, frame, (count - 1) as nat);
    }
}

/// A pack job: an atlas being rebuilt from the frames of a collection's
/// sprites.
pub struct PackJob {
    canvas: Bitmap,
    sprites: Vec<Sprite>,
    frame: Option<Bitmap>,
    completed: usize,
    column: u32,
    cancelled: bool,
    atlas: Ghost<Raster>,
    frames: Ghost<Seq<Raster>>,
}

impl View for PackJob {
    type V = PackState;

    closed spec fn view(&self) -> PackState {
        PackState {
            atlas: self.atlas@,
            sprites: self.sprites@,
            frames: self.frames@,
            completed: self.completed as nat,
            column: self.column as nat,
            cancelled: self.cancelled,
        }
    }
}

impl PackJob {
    /// The job's fields agree with its state: the canvas bitmap holds
    /// `self@.canvas()`, and the frame held is the one in progress.
    pub closed spec fn wf(&self) -> bool {
        &&& self@.wf()
        &&& self.canvas@ == self@.canvas()
        &&& self.frame is Some <==> self@.in_progress()
        &&& self.frame matches Some(f) ==> f@ == self.frames@[self.completed as int]
    }

    /// Starts a job on a copy of the atlas, with nothing composited yet.
    pub fn new(atlas: Bitmap, sprites: Vec<Sprite>) -> (job: PackJob)
        ensures
            job.wf(),
            job@ == PackState::initial(atlas@, sprites@),
    {
        let ghost start = atlas@;
        PackJob {
            canvas: atlas,
            sprites,
            frame: None,
            completed: 0,
            column: 0,
            cancelled: false,
            atlas: Ghost(start),
            frames: Ghost(Seq::empty()),
        }
    }

    /// The sprites of the job.
    pub fn sprites(&self) -> (sprites: &Vec<Sprite>)
        ensures
            sprites@ == self@.sprites,
    {
        &self.sprites
    }

    /// Whether the job waits for the frame of its next sprite.
    pub fn awaits_frame(&self) -> (waiting: bool)
        requires
            self.wf(),
        ensures
            waiting == self@.awaits_frame(),
    {
        !self.cancelled && self.completed < self.sprites.len() && self.frame.is_none()
    }

    /// Hands the job the frame image of the sprite it is about to composite.
    /// The frame is taken, and `true` returned, when the job waits for one;
    /// otherwise nothing changes.
    pub fn supply_frame(&mut self, frame: Bitmap) -> (taken: bool)
        requires
            old(self).wf(),
        ensures
            final(self).wf(),
            taken == old(self)@.awaits_frame(),
            final(self)@ == old(self)@.supplied(frame@),
    {
        if self.cancelled || self.completed >= self.sprites.len() || self.frame.is_some() {
            return false;
        }
        proof {
            let state = self@;
            lemma_packed_ignores_later_frames(
                state.atlas,
                state.sprites,
                state.frames,
                frame@,
                state.completed,
            );
            lemma_no_columns(
                self.canvas@,
                frame@,
                state.sprites[state.completed as int]@.placement,
                0,
            );
        }
        self.frames = Ghost(self.frames@.push(frame@));
        self.column = 0;
        self.frame = Some(frame);
        true
    }

    /// Does the next piece of work and says what happened.
    ///
    /// A cancelled job stays cancelled and a finished job stays finished.
    /// Otherwise a cancellation request cancels the job before anything else
    /// is written. Otherwise, when no frame is held, the job asks for the
    /// frame of its next sprite; when one is held, its next column is
    /// composited, and with the last column the sprite is complete and the
    /// share of completed sprites is reported.
    pub fn advance(&mut self, cancel_requested: bool) -> (event: PackEvent)
        requires
            old(self).wf(),
        ensures
            final(self).wf(),
            final(self)@ == old(self)@.advanced(cancel_requested),
            event == old(self)@.event(cancel_requested),
    {
        let total = self.sprites.len();
        if self.cancelled {
            return PackEvent::Cancelled;
        }
        if self.completed >= total {
            return PackEvent::Finished;
        }
        if cancel_requested {
            self.cancelled = true;
            return PackEvent::Cancelled;
        }
        let ghost state = self@;
        let ghost base = packed(state.atlas, state.sprites, state.frames, state.completed);
        let frame_width = match &self.frame {
            None => {
                return PackEvent::NeedFrame { sprite_index: self.completed };
            },
            Some(frame) => {
                let frame_width = frame.width();
                if self.column < frame_width {
                    composite_column(
                        &mut self.canvas,
                        frame,
                        &self.sprites[self.completed],
                        self.column,
                    );
                    proof {
                        lemma_columns_compose(
                            base,
                            frame@,
                            state.sprites[state.completed as int]@.placement,
                            0,
                            state.column as int,
                            state.column as int + 1,
                        );
                    }
                    self.column = self.column + 1;
                }
                frame_width
            },
        };
        if self.column < frame_width {
            return PackEvent::Working;
        }
        self.frame = None;
        self.column = 0;
        self.completed = self.completed + 1;
        let percent = (self.completed as u128 * 100 / (total as u128)) as usize;
        PackEvent::Progress { percent }
    }

    /// Ends the job. The canvas is handed out when every sprite is composited
    /// and the job was not cancelled; otherwise it is discarded.
    pub fn into_canvas(self) -> (canvas: Option<Bitmap>)
        requires
            self.wf(),
        ensures
            canvas is Some <==> self@.finished() && !self@.cancelled,
            canvas matches Some(c) ==> c@ == packed(
                self@.atlas,
                self@.sprites,
                self@.frames,
                self@.sprites.len(),
            ),
    {
        if !self.cancelled && self.completed >= self.sprites.len() {
            Some(self.canvas)
        } else {
            None
        }
    }
}

/// Packing a collection without sprites leaves the atlas as it is: the job is
/// finished from the start and its canvas is the atlas.
pub proof fn lemma_empty_collection_keeps_atlas(atlas: Raster, sprites: Seq<Sprite>, frames: Seq<Raster>)
    requires
        sprites.len() == 0,
    ensures
        PackState::initial(atlas, sprites).wf(),
        PackState::initial(atlas, sprites).finished(),
        PackState::initial(atlas, sprites).canvas() == atlas,
        packed(atlas, sprites, frames, sprites.len()) == atlas,
{
}

/// A cancellation request that reaches an unfinished job cancels it without
/// another pixel being written, and a cancelled job stays cancelled whatever
/// follows: it never reports that it finished, so its canvas is never stored.
pub proof fn lemma_cancellation_is_final(state: PackState, frame: Raster, cancel_requested: bool)
    requires
        state.wf(),
    ensures
        !state.finished() ==> state.advanced(true).cancelled && state.event(true)
            == PackEvent::Cancelled && state.advanced(true).canvas() == state.canvas(),
        state.cancelled ==> state.advanced(cancel_requested) == state && state.supplied(frame)
            == state && state.event(cancel_requested) == PackEvent::Cancelled,
{
}

/// Every step keeps the state well formed and never lowers the number of
/// completed sprites. A progress report comes exactly with the completion of
/// one more sprite and gives the share of completed sprites, at most 100.
pub proof fn lemma_progress_is_monotonic(state: PackState, frame: Raster, cancel_requested: bool)
    requires
        state.wf(),
    ensures
        state.advanced(cancel_requested).wf(),
        state.supplied(frame).wf(),
        state.supplied(frame).completed == state.completed,
        state.advanced(cancel_requested).completed >= state.completed,
        state.event(cancel_requested) matches PackEvent::Progress { percent } ==> {
            &&& state.advanced(cancel_requested).completed == state.completed + 1
            &&& percent == state.advanced(cancel_requested).completed * 100 / state.sprites.len()
            &&& percent <= 100
        },
{
    let total = state.sprites.len();
    let next = state.advanced(cancel_requested);
    if state.event(cancel_requested) is Progress {
        assert(next.completed * 100 / total <= 100) by (nonlinear_arith)
            requires
                0 < total,
                next.completed <= total,
        ;
    }
}

} // verus!
