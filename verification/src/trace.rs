//! The input side of the recorder: one sampled call-stack snapshot per tick.

use vstd::prelude::*;

verus! {

/// One stack level of a snapshot: a function name plus its source location.
pub struct Frame {
    pub name: String,
    pub filename: String,
    pub line: u32,
}

/// Mathematical image of a `Frame`.
pub struct FrameView {
    pub name: Seq<char>,
    pub filename: Seq<char>,
    pub line: u32,
}

impl View for Frame {
    type V = FrameView;

    open spec fn view(&self) -> FrameView {
        FrameView { name: self.name@, filename: self.filename@, line: self.line }
    }
}

/// One sampled snapshot: which process and thread it was taken on, and the
/// call frames ordered innermost (leaf) first.
pub struct StackTrace {
    pub pid: u32,
    pub thread_id: u64,
    pub thread_name: Option<String>,
    pub frames: Vec<Frame>,
}

/// Mathematical image of a `StackTrace`.
pub struct StackTraceView {
    pub pid: u32,
    pub thread_id: u64,
    pub thread_name: Option<Seq<char>>,
    pub frames: Seq<FrameView>,
}

impl View for StackTrace {
    type V = StackTraceView;

    open spec fn view(&self) -> StackTraceView {
        StackTraceView {
            pid: self.pid,
            thread_id: self.thread_id,
            thread_name: match self.thread_name {
                Some(n) => Some(n@),
                None => None,
            },
            frames: self.frames@.map_values(|f: Frame| f@),
        }
    }
}

} // verus!
