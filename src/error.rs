use vstd::prelude::*;

verus! {

/// What went wrong with one frame.
#[derive(Clone, Copy, Debug, PartialEq, Eq, Structural)]
pub enum FrameErrorKind {
    MalformedMetadata,
    DecodeFailure,
    MissingResource,
    ResizeOrCompositeFailure,
}

/// A failed frame, with what is needed to find it again.
#[derive(Clone, Debug)]
pub struct FrameError {
    pub kind: FrameErrorKind,
    pub channel: String,
    pub index: usize,
    pub path: String,
}

/// Why a run stops.
#[derive(Clone, Debug)]
pub enum RunError {
    /// One frame could not be loaded or composed; the run is abandoned.
    Frame(FrameError),
    /// The named channel has no frame at all.
    EmptyChannelTimeline { channel: String },
    /// The layout does not fit the channels or the frames it is given.
    LayoutMismatch,
    /// A picture of slot `index` has a size that cannot be resized or composed.
    ResizeOrCompositeFailure { channel: String, index: usize },
}

} // verus!
