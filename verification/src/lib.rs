//! Recognizes stack backtraces embedded in a diagnostic text stream and
//! re-renders them: a line classifier turns raw lines into typed events, an
//! assembler groups events into backtraces with panic metadata, a frame
//! filter hides spans of frames matched by user rules, and a layout engine
//! and renderer produce styled output lines.
use vstd::prelude::*;

pub mod classify;
pub mod config;
pub mod filter;
pub mod layout;
pub mod matcher;
pub mod parse;
pub mod partial;
pub mod render;
pub mod text;

pub use classify::ClassifyError;
pub use classify::ParsedLine;
pub use classify::ParsedLineV;
pub use config::Config;
pub use config::HyperLinks;
pub use filter::Filters;
pub use filter::Hide;
pub use matcher::Matcher;
pub use parse::Parser;

verus! {

/// The source position reported for one stack frame.
#[derive(Debug)]
pub struct SourceInfo {
    pub file: String,
    pub lineno: usize,
    pub colno: usize,
}

/// Mathematical model of a `SourceInfo`.
pub ghost struct SourceInfoV {
    pub file: Seq<char>,
    pub lineno: int,
    pub colno: int,
}

impl View for SourceInfo {
    type V = SourceInfoV;

    open spec fn view(&self) -> SourceInfoV {
        SourceInfoV { file: self.file@, lineno: self.lineno as int, colno: self.colno as int }
    }
}

impl DeepView for SourceInfo {
    type V = SourceInfoV;

    open spec fn deep_view(&self) -> SourceInfoV {
        self.view()
    }
}

/// One entry of a captured call stack: a function name, its ordinal frame
/// number, and, when the stream reported one, a source position.
#[derive(Debug)]
pub struct Frame {
    pub function: String,
    pub frameno: u32,
    pub source_info: Option<SourceInfo>,
}

/// Mathematical model of a `Frame`.
pub ghost struct FrameV {
    pub function: Seq<char>,
    pub frameno: int,
    pub source_info: Option<SourceInfoV>,
}

impl View for Frame {
    type V = FrameV;

    open spec fn view(&self) -> FrameV {
        FrameV {
            function: self.function@,
            frameno: self.frameno as int,
            source_info: match self.source_info {
                Some(si) => Some(si@),
                None => None,
            },
        }
    }
}

impl DeepView for Frame {
    type V = FrameV;

    open spec fn deep_view(&self) -> FrameV {
        self.view()
    }
}

/// The panic report attached to a backtrace: the panicking thread, the
/// location text, and the free-form message lines that followed it.
#[derive(Debug)]
pub struct PanicInfo {
    pub thread: String,
    pub at: String,
    pub message: Vec<String>,
}

/// Mathematical model of a `PanicInfo`.
pub ghost struct PanicInfoV {
    pub thread: Seq<char>,
    pub at: Seq<char>,
    pub message: Seq<Seq<char>>,
}

impl View for PanicInfo {
    type V = PanicInfoV;

    open spec fn view(&self) -> PanicInfoV {
        PanicInfoV { thread: self.thread@, at: self.at@, message: self.message.deep_view() }
    }
}

impl DeepView for PanicInfo {
    type V = PanicInfoV;

    open spec fn deep_view(&self) -> PanicInfoV {
        self.view()
    }
}

/// A complete backtrace: the frames in the order they were parsed, plus the
/// panic report that preceded them, when there was one.
#[derive(Debug)]
pub struct Backtrace {
    pub frames: Vec<Frame>,
    pub panic_info: Option<PanicInfo>,
}

/// Mathematical model of a `Backtrace`.
pub ghost struct BacktraceV {
    pub frames: Seq<FrameV>,
    pub panic_info: Option<PanicInfoV>,
}

impl View for Backtrace {
    type V = BacktraceV;

    open spec fn view(&self) -> BacktraceV {
        BacktraceV {
            frames: self.frames.deep_view(),
            panic_info: match self.panic_info {
                Some(pi) => Some(pi@),
                None => None,
            },
        }
    }
}

impl DeepView for Backtrace {
    type V = BacktraceV;

    open spec fn deep_view(&self) -> BacktraceV {
        self.view()
    }
}

/// A per-frame hide decision with traversal state, consulted by the
/// renderer once per frame in display order.
pub trait FrameFilter {
    fn should_hide(&mut self, frame: &Frame) -> bool;
}

} // verus!
