use vstd::prelude::*;

use crate::geometry::{FrameRegion, Rect};

verus! {

/// Why an atlas could not be built.
#[derive(Clone, Copy, Debug, PartialEq, Eq, Structural)]
pub enum LoadError {
    /// The descriptor could not be read.
    Unreadable,
    /// The descriptor is not of the expected shape.
    Malformed,
    /// The descriptor lists no frame.
    NoFrames,
}

/// An ordered, non-empty sequence of frames; the order is the playback order.
pub struct Atlas {
    frames: Vec<FrameRegion>,
}

impl Atlas {
    pub closed spec fn view(&self) -> Seq<FrameRegion> {
        self.frames@
    }

    pub open spec fn wf(&self) -> bool {
        self@.len() >= 1
    }

    /// Builds the atlas from frames in descriptor order; an empty list is refused.
    pub fn from_frames(frames: Vec<FrameRegion>) -> (r: Result<Atlas, LoadError>)
        ensures
            frames@.len() == 0 <==> r is Err,
            r is Err ==> r == Err::<Atlas, LoadError>(LoadError::NoFrames),
            r matches Ok(a) ==> a@ == frames@ && a.wf(),
    {
        if frames.len() == 0 {
            Err(LoadError::NoFrames)
        } else {
            Ok(Atlas { frames })
        }
    }

    pub fn len(&self) -> (r: usize)
        ensures
            r == self@.len(),
    {
        self.frames.len()
    }

    pub fn frame(&self, i: usize) -> (r: &FrameRegion)
        requires
            i < self@.len(),
        ensures
            *r == self@[i as int],
    {
        &self.frames[i]
    }

    pub fn region(&self, i: usize) -> (r: Rect)
        requires
            i < self@.len(),
        ensures
            r == self@[i as int].region,
    {
        self.frames[i].region
    }
}

} // verus!
