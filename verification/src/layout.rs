//! The layout engine: pure width computations done before any text is
//! emitted, plus detection of the terminal width.
use vstd::prelude::*;

use crate::text::digit_count;
use crate::text::digits_u64;
use crate::Backtrace;
use crate::Frame;
use crate::FrameV;
use crate::SourceInfo;
use crate::SourceInfoV;

verus! {

/// The larger of two mathematical integers.
pub open spec fn max_i(a: int, b: int) -> int {
    if a >= b {
        a
    } else {
        b
    }
}

/// The smaller of two mathematical integers.
pub open spec fn min_i(a: int, b: int) -> int {
    if a <= b {
        a
    } else {
        b
    }
}

/// The highest frame number present, or 0 with no frames.
pub open spec fn max_frameno(frames: Seq<FrameV>) -> int
    decreases frames.len(),
{
    if frames.len() == 0 {
        0
    } else {
        max_i(max_frameno(frames.drop_last()), frames.last().frameno)
    }
}

/// Three more than the highest source line number present, or 1 when no
/// frame carries source information.
pub open spec fn max_lineno3(frames: Seq<FrameV>) -> int
    decreases frames.len(),
{
    if frames.len() == 0 {
        1
    } else {
        let rest = max_lineno3(frames.drop_last());
        match frames.last().source_info {
            Some(si) => max_i(rest, si.lineno + 3),
            None => rest,
        }
    }
}

/// The column width a source position needs beside a frame-number column
/// of `fw`: the file path, the digits of line and column, and nine more
/// characters of fixed decoration.
pub open spec fn source_width_spec(si: SourceInfoV, fw: int) -> int {
    fw + si.file.len() + digit_count(si.lineno) + digit_count(si.colno) + 9
}

/// The column width one frame needs: its header line, or its source
/// position line when it has one.
pub open spec fn frame_width_spec(f: FrameV, fw: int) -> int {
    max_i(
        fw + 2 + f.function.len(),
        match f.source_info {
            Some(si) => source_width_spec(si, fw),
            None => 0,
        },
    )
}

/// The widest frame of the backtrace, or 80 with no frames.
pub open spec fn max_frame_width(frames: Seq<FrameV>, fw: int) -> int
    decreases frames.len(),
{
    if frames.len() == 0 {
        80
    } else if frames.len() == 1 {
        frame_width_spec(frames[0], fw)
    } else {
        max_i(max_frame_width(frames.drop_last(), fw), frame_width_spec(frames.last(), fw))
    }
}

/// Every source line number leaves room for the three-line lookahead the
/// layout adds, a machine limit.
pub open spec fn linenos_in_range(frames: Seq<FrameV>) -> bool {
    forall|i: int|
        0 <= i < frames.len() ==> match #[trigger] frames[i].source_info {
            Some(si) => si.lineno + 3 <= usize::MAX as int,
            None => true,
        }
}

impl SourceInfo {
    /// Width of this source position beside a frame-number column of
    /// `frameno_width`, ignoring the code snippet; clamped at the machine
    /// limit.
    pub fn width(&self, frameno_width: usize) -> (r: usize)
        ensures
            r as int == min_i(source_width_spec(self@, frameno_width as int), usize::MAX as int),
    {
        let dl = digits_u64(self.lineno as u64);
        let dc = digits_u64(self.colno as u64);
        frameno_width.saturating_add(self.file.as_str().unicode_len()).saturating_add(
            dl,
        ).saturating_add(dc).saturating_add(9)
    }
}

impl Frame {
    /// Width this frame needs beside a frame-number column of
    /// `frameno_width`; clamped at the machine limit.
    pub fn width(&self, frameno_width: usize) -> (r: usize)
        ensures
            r as int == min_i(frame_width_spec(self@, frameno_width as int), usize::MAX as int),
    {
        let a = frameno_width.saturating_add(2).saturating_add(
            self.function.as_str().unicode_len(),
        );
        let b = match &self.source_info {
            Some(si) => si.width(frameno_width),
            None => 0,
        };
        if a >= b {
            a
        } else {
            b
        }
    }
}

impl Backtrace {
    /// The number of decimal digits of the highest frame number present
    /// (at least 1).
    pub fn compute_frameno_width(&self) -> (r: usize)
        ensures
            r as int == digit_count(max_frameno(self@.frames)),
    {
        let n = self.frames.len();
        let mut m: u32 = 0;
        let mut i: usize = 0;
        while i < n
            invariant
                i <= n,
                n == self.frames@.len(),
                m as int == max_frameno(self@.frames.subrange(0, i as int)),
            decreases n - i,
        {
            let f = &self.frames[i];
            if f.frameno > m {
                m = f.frameno;
            }
            i = i + 1;
            proof {
                let pre = self@.frames.subrange(0, i as int);
                assert(pre.drop_last() =~= self@.frames.subrange(0, i - 1));
                assert(pre.last() == self.frames@[i - 1]@);
            }
        }
        proof {
            assert(self@.frames.subrange(0, n as int) =~= self@.frames);
        }
        digits_u64(m as u64)
    }

    /// The number of decimal digits of the highest source line number
    /// plus three (at least 1): the widest line number a five-line code
    /// snippet around that line can show.
    pub fn compute_lineno_width(&self) -> (r: usize)
        requires
            linenos_in_range(self@.frames),
        ensures
            r as int == digit_count(max_lineno3(self@.frames)),
    {
        let n = self.frames.len();
        let mut m: usize = 1;
        let mut i: usize = 0;
        while i < n
            invariant
                i <= n,
                n == self.frames@.len(),
                linenos_in_range(self@.frames),
                m as int == max_lineno3(self@.frames.subrange(0, i as int)),
            decreases n - i,
        {
            proof {
                assert(self@.frames[i as int] == self.frames@[i as int]@);
            }
            match &self.frames[i].source_info {
                Some(si) => {
                    proof {
                        let siv = self@.frames[i as int].source_info;
                        assert(siv is Some && siv->Some_0.lineno + 3 <= usize::MAX as int);
                    }
                    let w = si.lineno + 3;
                    if w > m {
                        m = w;
                    }
                },
                None => {},
            }
            i = i + 1;
            proof {
                let pre = self@.frames.subrange(0, i as int);
                assert(pre.drop_last() =~= self@.frames.subrange(0, i - 1));
                assert(pre.last() == self.frames@[i - 1]@);
            }
        }
        proof {
            assert(self@.frames.subrange(0, n as int) =~= self@.frames);
        }
        digits_u64(m as u64)
    }

    /// The total band width: the width of the widest frame (80 with no
    /// frames), but never wider than the terminal.
    pub fn compute_width(&self, frameno_width: usize, term_width: usize) -> (r: usize)
        ensures
            r as int == min_i(
                term_width as int,
                max_frame_width(self@.frames, frameno_width as int),
            ),
    {
        let n = self.frames.len();
        let mut m: usize = 80;
        let mut i: usize = 0;
        while i < n
            invariant
                i <= n,
                n == self.frames@.len(),
                m as int == min_i(
                    max_frame_width(self@.frames.subrange(0, i as int), frameno_width as int),
                    usize::MAX as int,
                ),
            decreases n - i,
        {
            proof {
                assert(self@.frames[i as int] == self.frames@[i as int]@);
            }
            let w = self.frames[i].width(frameno_width);
            if i == 0 || w > m {
                m = w;
            }
            i = i + 1;
            proof {
                let pre = self@.frames.subrange(0, i as int);
                assert(pre.drop_last() =~= self@.frames.subrange(0, i - 1));
                assert(pre.last() == self.frames@[i - 1]@);
                assert(pre[0] == self@.frames[0]);
            }
        }
        proof {
            assert(self@.frames.subrange(0, n as int) =~= self@.frames);
        }
        if m <= term_width {
            m
        } else {
            term_width
        }
    }
}

/// Relies on `termion::terminal_size`: the terminal's (columns, rows)
/// when they can be detected. The value depends on the environment, so
/// nothing is assumed about it.
#[verifier::external_body]
fn terminal_size_raw() -> (r: Option<(u16, u16)>) {
    termion::terminal_size().ok()
}

/// The detected terminal column width, taken as is, or 80 when the
/// terminal size cannot be detected.
pub fn detected_terminal_width() -> usize {
    match terminal_size_raw() {
        Some((cols, _)) => cols as usize,
        None => 80,
    }
}

} // verus!
