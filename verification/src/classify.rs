//! The line classifier: pattern-matches one line of text into one of five
//! kinds of parsed line (panic report, backtrace start marker, frame
//! header, frame source position, or anything else).
//!
//! The patterns are stated here as spec functions over character
//! sequences, and the executable matcher is proved to decide them exactly.
use vstd::prelude::*;

use crate::SourceInfo;
use crate::SourceInfoV;

verus! {

broadcast use vstd::string::group_string_axioms;

/// Whitespace, as the Unicode `White_Space` property defines it.
pub open spec fn is_space(c: char) -> bool {
    ||| c == '\u{0009}'
    ||| c == '\u{000A}'
    ||| c == '\u{000B}'
    ||| c == '\u{000C}'
    ||| c == '\u{000D}'
    ||| c == '\u{0020}'
    ||| c == '\u{0085}'
    ||| c == '\u{00A0}'
    ||| c == '\u{1680}'
    ||| ('\u{2000}' <= c && c <= '\u{200A}')
    ||| c == '\u{2028}'
    ||| c == '\u{2029}'
    ||| c == '\u{202F}'
    ||| c == '\u{205F}'
    ||| c == '\u{3000}'
}

/// A decimal digit.
pub open spec fn is_digit(c: char) -> bool {
    '0' <= c && c <= '9'
}

/// A character of a module qualifier: letters, digits, or underscore.
pub open spec fn is_word(c: char) -> bool {
    ||| ('a' <= c && c <= 'z')
    ||| ('A' <= c && c <= 'Z')
    ||| ('0' <= c && c <= '9')
    ||| c == '_'
}

/// The character classes the patterns scan over.
#[derive(Clone, Copy)]
pub enum CharClass {
    Space,
    Digit,
    Word,
    NotQuote,
    NotColon,
}

/// Membership of a character in a class.
pub open spec fn in_class(k: CharClass, c: char) -> bool {
    match k {
        CharClass::Space => is_space(c),
        CharClass::Digit => is_digit(c),
        CharClass::Word => is_word(c),
        CharClass::NotQuote => c != '\'',
        CharClass::NotColon => c != ':',
    }
}

pub fn in_class_exec(k: CharClass, c: char) -> (r: bool)
    ensures
        r == in_class(k, c),
{
    match k {
        CharClass::Space => c == '\u{0009}' || c == '\u{000A}' || c == '\u{000B}' || c
            == '\u{000C}' || c == '\u{000D}' || c == '\u{0020}' || c == '\u{0085}' || c
            == '\u{00A0}' || c == '\u{1680}' || ('\u{2000}' <= c && c <= '\u{200A}') || c
            == '\u{2028}' || c == '\u{2029}' || c == '\u{202F}' || c == '\u{205F}' || c
            == '\u{3000}',
        CharClass::Digit => '0' <= c && c <= '9',
        CharClass::Word => ('a' <= c && c <= 'z') || ('A' <= c && c <= 'Z') || ('0' <= c && c
            <= '9') || c == '_',
        CharClass::NotQuote => c != '\'',
        CharClass::NotColon => c != ':',
    }
}

/// The end of the run of class-`k` characters that starts at `i`: the first
/// position at or after `i` holding no such character, or the end of `s`.
pub open spec fn scan_end(s: Seq<char>, i: int, k: CharClass) -> int
    decreases s.len() - i,
{
    if 0 <= i < s.len() && in_class(k, s[i]) {
        scan_end(s, i + 1, k)
    } else {
        i
    }
}

pub proof fn lemma_scan_end(s: Seq<char>, i: int, k: CharClass)
    requires
        0 <= i <= s.len(),
    ensures
        i <= scan_end(s, i, k) <= s.len(),
        forall|j: int| i <= j < scan_end(s, i, k) ==> in_class(k, s[j]),
        scan_end(s, i, k) < s.len() ==> !in_class(k, s[scan_end(s, i, k)]),
    decreases s.len() - i,
{
    if 0 <= i < s.len() && in_class(k, s[i]) {
        lemma_scan_end(s, i + 1, k);
    }
}

/// Scans the run of class-`k` characters starting at `i`.
pub fn scan_class(v: &Vec<char>, i: usize, k: CharClass) -> (r: usize)
    requires
        i <= v@.len(),
    ensures
        r == scan_end(v@, i as int, k),
        i <= r <= v@.len(),
{
    let n = v.len();
    let mut r = i;
    while r < n && in_class_exec(k, v[r])
        invariant
            i <= r <= n,
            n == v@.len(),
            scan_end(v@, i as int, k) == scan_end(v@, r as int, k),
        decreases n - r,
    {
        r = r + 1;
    }
    r
}

/// True when the text `t` occurs in `s` starting at position `i`.
pub open spec fn has_at(s: Seq<char>, i: int, t: Seq<char>) -> bool {
    &&& 0 <= i
    &&& i + t.len() <= s.len()
    &&& s.subrange(i, i + t.len() as int) == t
}

/// Decides `has_at` against a literal given as a string slice.
pub fn check_at(v: &Vec<char>, i: usize, lit: &str) -> (r: bool)
    requires
        i <= v@.len(),
    ensures
        r == has_at(v@, i as int, lit@),
{
    let n = v.len();
    let tlen = lit.unicode_len();
    if tlen > n - i {
        return false;
    }
    let mut k: usize = 0;
    while k < tlen
        invariant
            k <= tlen,
            tlen == lit@.len(),
            i + tlen <= n,
            n == v@.len(),
            forall|j: int| 0 <= j < k ==> v@[i + j] == lit@[j],
        decreases tlen - k,
    {
        if v[i + k] != lit.get_char(k) {
            proof {
                assert(v@.subrange(i as int, i + lit@.len())[k as int] != lit@[k as int]);
            }
            return false;
        }
        k = k + 1;
    }
    proof {
        assert(v@.subrange(i as int, i + lit@.len()) =~= lit@);
    }
    true
}

/// The numeric value of a run of decimal digit characters.
pub open spec fn digits_val(s: Seq<char>) -> int
    decreases s.len(),
{
    if s.len() == 0 {
        0
    } else {
        10 * digits_val(s.drop_last()) + ((s.last() as u32) as int - 48)
    }
}

pub proof fn lemma_digits_val_nonneg(s: Seq<char>)
    requires
        forall|j: int| 0 <= j < s.len() ==> is_digit(s[j]),
    ensures
        digits_val(s) >= 0,
    decreases s.len(),
{
    if s.len() > 0 {
        lemma_digits_val_nonneg(s.drop_last());
    }
}

/// Extending a digit run on the right never decreases its value.
pub proof fn lemma_digits_val_extend(s: Seq<char>, k: int)
    requires
        0 <= k <= s.len(),
        forall|j: int| 0 <= j < s.len() ==> is_digit(s[j]),
    ensures
        digits_val(s.subrange(0, k)) <= digits_val(s),
    decreases s.len() - k,
{
    if k == s.len() {
        assert(s.subrange(0, k) =~= s);
    } else {
        lemma_digits_val_extend(s, k + 1);
        let t = s.subrange(0, k + 1);
        assert(t.drop_last() =~= s.subrange(0, k));
        lemma_digits_val_nonneg(s.subrange(0, k));
        assert(digits_val(s.subrange(0, k)) <= digits_val(t));
    }
}

/// Reads the digit run `v[a..b]` as a `u32`; reports overflow exactly.
pub fn parse_u32(v: &Vec<char>, a: usize, b: usize) -> (r: Option<u32>)
    requires
        a <= b <= v@.len(),
        forall|j: int| a <= j < b ==> is_digit(v@[j]),
    ensures
        match r {
            Some(n) => n as int == digits_val(v@.subrange(a as int, b as int)),
            None => digits_val(v@.subrange(a as int, b as int)) > u32::MAX as int,
        },
{
    let ghost whole = v@.subrange(a as int, b as int);
    proof {
        assert(forall|j: int| 0 <= j < whole.len() ==> is_digit(whole[j]));
    }
    let mut n: u32 = 0;
    let mut i: usize = a;
    while i < b
        invariant
            a <= i <= b <= v@.len(),
            whole == v@.subrange(a as int, b as int),
            forall|j: int| 0 <= j < whole.len() ==> is_digit(whole[j]),
            n as int == digits_val(v@.subrange(a as int, i as int)),
        decreases b - i,
    {
        let c = v[i];
        proof {
            assert(v@[i as int] == whole[i - a]);
        }
        assert(is_digit(c));
        let d: u32 = (c as u32) - 48;
        let step = match n.checked_mul(10) {
            Some(m) => m.checked_add(d),
            None => None,
        };
        proof {
            let prefix1 = v@.subrange(a as int, i + 1);
            assert(prefix1.drop_last() =~= v@.subrange(a as int, i as int));
            assert(digits_val(prefix1) == 10 * digits_val(v@.subrange(a as int, i as int)) + (
            c as u32 as int - 48));
        }
        match step {
            Some(m) => {
                n = m;
            },
            None => {
                proof {
                    lemma_digits_val_nonneg(v@.subrange(a as int, i as int));
                    assert(whole.subrange(0, i + 1 - a) =~= v@.subrange(a as int, i + 1));
                    lemma_digits_val_extend(whole, i + 1 - a);
                }
                return None;
            },
        }
        i = i + 1;
    }
    proof {
        assert(v@.subrange(a as int, b as int) =~= whole);
    }
    Some(n)
}

/// Reads the digit run `v[a..b]` as a `usize`; reports overflow exactly.
pub fn parse_usize(v: &Vec<char>, a: usize, b: usize) -> (r: Option<usize>)
    requires
        a <= b <= v@.len(),
        forall|j: int| a <= j < b ==> is_digit(v@[j]),
    ensures
        match r {
            Some(n) => n as int == digits_val(v@.subrange(a as int, b as int)),
            None => digits_val(v@.subrange(a as int, b as int)) > usize::MAX as int,
        },
{
    let ghost whole = v@.subrange(a as int, b as int);
    proof {
        assert(forall|j: int| 0 <= j < whole.len() ==> is_digit(whole[j]));
    }
    let mut n: usize = 0;
    let mut i: usize = a;
    while i < b
        invariant
            a <= i <= b <= v@.len(),
            whole == v@.subrange(a as int, b as int),
            forall|j: int| 0 <= j < whole.len() ==> is_digit(whole[j]),
            n as int == digits_val(v@.subrange(a as int, i as int)),
        decreases b - i,
    {
        let c = v[i];
        proof {
            assert(v@[i as int] == whole[i - a]);
        }
        assert(is_digit(c));
        let d: usize = ((c as u32) - 48) as usize;
        let step = match n.checked_mul(10) {
            Some(m) => m.checked_add(d),
            None => None,
        };
        proof {
            let prefix1 = v@.subrange(a as int, i + 1);
            assert(prefix1.drop_last() =~= v@.subrange(a as int, i as int));
            assert(digits_val(prefix1) == 10 * digits_val(v@.subrange(a as int, i as int)) + (
            c as u32 as int - 48));
        }
        match step {
            Some(m) => {
                n = m;
            },
            None => {
                proof {
                    lemma_digits_val_nonneg(v@.subrange(a as int, i as int));
                    assert(whole.subrange(0, i + 1 - a) =~= v@.subrange(a as int, i + 1));
                    lemma_digits_val_extend(whole, i + 1 - a);
                }
                return None;
            },
        }
        i = i + 1;
    }
    proof {
        assert(v@.subrange(a as int, b as int) =~= whole);
    }
    Some(n)
}

/// One line of input, classified. Produced in input order and consumed
/// once by the assembler.
#[derive(Debug)]
pub enum ParsedLine {
    /// A line reporting a panic, such as
    /// `thread 'main' panicked at src/main.rs:3:5:`.
    ThreadPanic { thread: String, at: String },
    /// The marker line `stack backtrace:` that begins a trace.
    BacktraceStart,
    /// The header of a frame: its number and the function's name, such as
    /// `  28: rustc_middle::ty::context::tls::enter_context`.
    BacktraceHeader { function: String, frameno: u32 },
    /// A line reporting source information for the preceding frame header,
    /// such as `             at compiler/rustc_middle/src/ty/tls.rs:79:9`.
    BacktraceSource(SourceInfo),
    /// A line matching none of the other patterns, kept verbatim.
    Other(String),
}

/// Mathematical model of a `ParsedLine`.
pub ghost enum ParsedLineV {
    ThreadPanic { thread: Seq<char>, at: Seq<char> },
    BacktraceStart,
    BacktraceHeader { function: Seq<char>, frameno: int },
    BacktraceSource(SourceInfoV),
    Other(Seq<char>),
}

impl View for ParsedLine {
    type V = ParsedLineV;

    open spec fn view(&self) -> ParsedLineV {
        match self {
            ParsedLine::ThreadPanic { thread, at } => ParsedLineV::ThreadPanic {
                thread: thread@,
                at: at@,
            },
            ParsedLine::BacktraceStart => ParsedLineV::BacktraceStart,
            ParsedLine::BacktraceHeader { function, frameno } => ParsedLineV::BacktraceHeader {
                function: function@,
                frameno: *frameno as int,
            },
            ParsedLine::BacktraceSource(si) => ParsedLineV::BacktraceSource(si@),
            ParsedLine::Other(text) => ParsedLineV::Other(text@),
        }
    }
}

impl DeepView for ParsedLine {
    type V = ParsedLineV;

    open spec fn deep_view(&self) -> ParsedLineV {
        self.view()
    }
}

/// A numeric capture that the pattern guarantees to be digits failed to
/// fit its integer type. The classifier surfaces this instead of
/// panicking or coercing the value.
#[derive(Clone, Copy, Debug, PartialEq, Eq, Structural)]
pub enum ClassifyError {
    FrameNumberTooLarge,
    LineNumberTooLarge,
    ColumnNumberTooLarge,
}

/// The line is exactly `stack backtrace:`, compared ignoring ASCII case.
pub open spec fn is_backtrace_start(s: Seq<char>) -> bool {
    &&& s.len() == "stack backtrace:"@.len()
    &&& forall|i: int|
        0 <= i < s.len() ==> s[i] == "stack backtrace:"@[i] || s[i] == "STACK BACKTRACE:"@[i]
}

/// The panic pattern: `thread`, whitespace, a quoted non-empty thread
/// name, one whitespace character, `panicked`, whitespace, `at`,
/// whitespace, and a non-empty remainder. Yields the bounds of the thread
/// name and the start of the remainder.
pub open spec fn panic_parts(s: Seq<char>) -> Option<(int, int, int)> {
    if !has_at(s, 0, "thread"@) {
        None
    } else {
        let j1 = scan_end(s, 6, CharClass::Space);
        if j1 == 6 || j1 >= s.len() || s[j1] != '\'' {
            None
        } else {
            let t0 = j1 + 1;
            let t1 = scan_end(s, t0, CharClass::NotQuote);
            if t1 == t0 || t1 >= s.len() {
                None
            } else if t1 + 1 >= s.len() || !is_space(s[t1 + 1]) {
                None
            } else if !has_at(s, t1 + 2, "panicked"@) {
                None
            } else {
                let j3 = scan_end(s, t1 + 10, CharClass::Space);
                if j3 == t1 + 10 {
                    None
                } else if !has_at(s, j3, "at"@) {
                    None
                } else {
                    let a0 = scan_end(s, j3 + 2, CharClass::Space);
                    if a0 == j3 + 2 || a0 >= s.len() {
                        None
                    } else {
                        Some((t0, t1, a0))
                    }
                }
            }
        }
    }
}

/// The end of the optional module-qualifier prefix that may precede a
/// function name: a word run, whitespace, `-`, whitespace, with at least
/// one character left. When no such prefix is present the position is
/// returned unchanged.
pub open spec fn qualifier_end(s: Seq<char>, j2: int) -> int {
    let w = scan_end(s, j2, CharClass::Word);
    if w == j2 {
        j2
    } else {
        let sp1 = scan_end(s, w, CharClass::Space);
        if sp1 == w || sp1 >= s.len() || s[sp1] != '-' {
            j2
        } else {
            let sp2 = scan_end(s, sp1 + 1, CharClass::Space);
            if sp2 == sp1 + 1 || sp2 >= s.len() {
                j2
            } else {
                sp2
            }
        }
    }
}

/// The frame-header pattern: leading whitespace, a decimal frame number,
/// a colon, whitespace, an optional module qualifier, and a non-empty
/// function name. Yields the bounds of the number and the start of the
/// function name.
pub open spec fn frame_parts(s: Seq<char>) -> Option<(int, int, int)> {
    let j0 = scan_end(s, 0, CharClass::Space);
    if j0 == 0 {
        None
    } else {
        let d1 = scan_end(s, j0, CharClass::Digit);
        if d1 == j0 || d1 >= s.len() || s[d1] != ':' {
            None
        } else {
            let j2 = scan_end(s, d1 + 1, CharClass::Space);
            if j2 == d1 + 1 || j2 >= s.len() {
                None
            } else {
                Some((j0, d1, qualifier_end(s, j2)))
            }
        }
    }
}

/// The source-position pattern: leading whitespace, `at`, whitespace,
/// then `file:line:column` where the file part holds no colon. Yields the
/// bounds of the three captures.
pub open spec fn source_parts(s: Seq<char>) -> Option<(int, int, int, int, int, int)> {
    let j0 = scan_end(s, 0, CharClass::Space);
    if j0 == 0 {
        None
    } else if !has_at(s, j0, "at"@) {
        None
    } else {
        let f0 = scan_end(s, j0 + 2, CharClass::Space);
        if f0 == j0 + 2 {
            None
        } else {
            let f1 = scan_end(s, f0, CharClass::NotColon);
            if f1 == f0 || f1 >= s.len() {
                None
            } else {
                let l0 = f1 + 1;
                let l1 = scan_end(s, l0, CharClass::Digit);
                if l1 == l0 || l1 >= s.len() || s[l1] != ':' {
                    None
                } else {
                    let c0 = l1 + 1;
                    let c1 = scan_end(s, c0, CharClass::Digit);
                    if c1 == c0 {
                        None
                    } else {
                        Some((f0, f1, l0, l1, c0, c1))
                    }
                }
            }
        }
    }
}

/// Full classification of one line. The patterns are tried in fixed
/// priority order, first match wins, and any line matching none of them
/// is `Other` with its text kept verbatim. A numeric capture that does
/// not fit its integer type is an error, never a silent coercion.
pub open spec fn classify_full(s: Seq<char>) -> Result<ParsedLineV, ClassifyError> {
    if is_backtrace_start(s) {
        Ok(ParsedLineV::BacktraceStart)
    } else {
        match panic_parts(s) {
            Some(p) => Ok(
                ParsedLineV::ThreadPanic {
                    thread: s.subrange(p.0, p.1),
                    at: s.subrange(p.2, s.len() as int),
                },
            ),
            None => match frame_parts(s) {
                Some(fp) => {
                    let val = digits_val(s.subrange(fp.0, fp.1));
                    if val > u32::MAX as int {
                        Err(ClassifyError::FrameNumberTooLarge)
                    } else {
                        Ok(
                            ParsedLineV::BacktraceHeader {
                                function: s.subrange(fp.2, s.len() as int),
                                frameno: val,
                            },
                        )
                    }
                },
                None => match source_parts(s) {
                    Some(sp) => {
                        let l = digits_val(s.subrange(sp.2, sp.3));
                        let c = digits_val(s.subrange(sp.4, sp.5));
                        if l > usize::MAX as int {
                            Err(ClassifyError::LineNumberTooLarge)
                        } else if c > usize::MAX as int {
                            Err(ClassifyError::ColumnNumberTooLarge)
                        } else {
                            Ok(
                                ParsedLineV::BacktraceSource(
                                    SourceInfoV {
                                        file: s.subrange(sp.0, sp.1),
                                        lineno: l,
                                        colno: c,
                                    },
                                ),
                            )
                        }
                    },
                    None => Ok(ParsedLineV::Other(s)),
                },
            },
        }
    }
}

/// Any line that matches none of the backtrace-related patterns is
/// classified `Other`, with its text preserved verbatim.
pub proof fn lemma_classifier_preserves_unmatched(s: Seq<char>)
    requires
        !is_backtrace_start(s),
        panic_parts(s) is None,
        frame_parts(s) is None,
        source_parts(s) is None,
    ensures
        classify_full(s) == Ok::<ParsedLineV, ClassifyError>(ParsedLineV::Other(s)),
{
}

fn check_backtrace_start(v: &Vec<char>) -> (r: bool)
    ensures
        r == is_backtrace_start(v@),
{
    let low = "stack backtrace:";
    let up = "STACK BACKTRACE:";
    let tlen = low.unicode_len();
    proof {
        reveal_strlit("stack backtrace:");
        reveal_strlit("STACK BACKTRACE:");
    }
    if v.len() != tlen {
        return false;
    }
    let mut k: usize = 0;
    while k < tlen
        invariant
            k <= tlen,
            tlen == low@.len(),
            tlen == up@.len(),
            low@ == "stack backtrace:"@,
            up@ == "STACK BACKTRACE:"@,
            v@.len() == tlen,
            forall|j: int| 0 <= j < k ==> v@[j] == low@[j] || v@[j] == up@[j],
        decreases tlen - k,
    {
        let c = v[k];
        if c != low.get_char(k) && c != up.get_char(k) {
            proof {
                reveal_strlit("stack backtrace:");
                reveal_strlit("STACK BACKTRACE:");
                assert(v@[k as int] != "stack backtrace:"@[k as int]);
                assert(v@[k as int] != "STACK BACKTRACE:"@[k as int]);
            }
            return false;
        }
        k = k + 1;
    }
    true
}

fn try_panic(v: &Vec<char>, line: &str) -> (r: Option<ParsedLine>)
    requires
        v@ == line@,
    ensures
        match r {
            Some(l) => match panic_parts(line@) {
                Some(p) => l@ == (ParsedLineV::ThreadPanic {
                    thread: line@.subrange(p.0, p.1),
                    at: line@.subrange(p.2, line@.len() as int),
                }),
                None => false,
            },
            None => panic_parts(line@) is None,
        },
{
    proof {
        reveal_strlit("thread");
        reveal_strlit("panicked");
        reveal_strlit("at");
    }
    let n = v.len();
    if !check_at(v, 0, "thread") {
        return None;
    }
    let j1 = scan_class(v, 6, CharClass::Space);
    if j1 == 6 || j1 >= n {
        return None;
    }
    if v[j1] != '\'' {
        return None;
    }
    let t0 = j1 + 1;
    let t1 = scan_class(v, t0, CharClass::NotQuote);
    if t1 == t0 || t1 >= n {
        return None;
    }
    if t1 + 1 >= n || !in_class_exec(CharClass::Space, v[t1 + 1]) {
        return None;
    }
    if !check_at(v, t1 + 2, "panicked") {
        return None;
    }
    let j3 = scan_class(v, t1 + 10, CharClass::Space);
    if j3 == t1 + 10 {
        return None;
    }
    if !check_at(v, j3, "at") {
        return None;
    }
    let a0 = scan_class(v, j3 + 2, CharClass::Space);
    if a0 == j3 + 2 || a0 >= n {
        return None;
    }
    let thread = line.substring_char(t0, t1).to_owned();
    let at = line.substring_char(a0, n).to_owned();
    Some(ParsedLine::ThreadPanic { thread, at })
}

fn try_frame(v: &Vec<char>, line: &str) -> (r: Option<Result<ParsedLine, ClassifyError>>)
    requires
        v@ == line@,
    ensures
        match r {
            Some(res) => match frame_parts(line@) {
                Some(fp) => {
                    let val = digits_val(line@.subrange(fp.0, fp.1));
                    match res {
                        Ok(l) => val <= u32::MAX as int && l@ == (ParsedLineV::BacktraceHeader {
                            function: line@.subrange(fp.2, line@.len() as int),
                            frameno: val,
                        }),
                        Err(e) => val > u32::MAX as int && e == ClassifyError::FrameNumberTooLarge,
                    }
                },
                None => false,
            },
            None => frame_parts(line@) is None,
        },
{
    let n = v.len();
    let j0 = scan_class(v, 0, CharClass::Space);
    if j0 == 0 {
        return None;
    }
    let d1 = scan_class(v, j0, CharClass::Digit);
    if d1 == j0 || d1 >= n {
        return None;
    }
    if v[d1] != ':' {
        return None;
    }
    let j2 = scan_class(v, d1 + 1, CharClass::Space);
    if j2 == d1 + 1 || j2 >= n {
        return None;
    }
    let f0 = qualifier_end_exec(v, j2);
    proof {
        lemma_scan_end(v@, j0 as int, CharClass::Digit);
    }
    match parse_u32(v, j0, d1) {
        Some(frameno) => {
            let function = line.substring_char(f0, n).to_owned();
            Some(Ok(ParsedLine::BacktraceHeader { function, frameno }))
        },
        None => Some(Err(ClassifyError::FrameNumberTooLarge)),
    }
}

fn qualifier_end_exec(v: &Vec<char>, j2: usize) -> (r: usize)
    requires
        j2 < v@.len(),
    ensures
        r as int == qualifier_end(v@, j2 as int),
        j2 <= r < v@.len(),
{
    let n = v.len();
    let w = scan_class(v, j2, CharClass::Word);
    if w == j2 {
        return j2;
    }
    let sp1 = scan_class(v, w, CharClass::Space);
    if sp1 == w || sp1 >= n {
        return j2;
    }
    if v[sp1] != '-' {
        return j2;
    }
    let sp2 = scan_class(v, sp1 + 1, CharClass::Space);
    if sp2 == sp1 + 1 || sp2 >= n {
        return j2;
    }
    sp2
}

fn try_source(v: &Vec<char>, line: &str) -> (r: Option<Result<ParsedLine, ClassifyError>>)
    requires
        v@ == line@,
    ensures
        match r {
            Some(res) => match source_parts(line@) {
                Some(sp) => {
                    let l = digits_val(line@.subrange(sp.2, sp.3));
                    let c = digits_val(line@.subrange(sp.4, sp.5));
                    match res {
                        Ok(pl) => l <= usize::MAX as int && c <= usize::MAX as int && pl@ == (
                        ParsedLineV::BacktraceSource(
                            SourceInfoV { file: line@.subrange(sp.0, sp.1), lineno: l, colno: c },
                        )),
                        Err(e) => (l > usize::MAX as int && e == ClassifyError::LineNumberTooLarge)
                            || (l <= usize::MAX as int && c > usize::MAX as int && e
                            == ClassifyError::ColumnNumberTooLarge),
                    }
                },
                None => false,
            },
            None => source_parts(line@) is None,
        },
{
    proof {
        reveal_strlit("at");
    }
    let n = v.len();
    let j0 = scan_class(v, 0, CharClass::Space);
    if j0 == 0 {
        return None;
    }
    if !check_at(v, j0, "at") {
        return None;
    }
    let f0 = scan_class(v, j0 + 2, CharClass::Space);
    if f0 == j0 + 2 {
        return None;
    }
    let f1 = scan_class(v, f0, CharClass::NotColon);
    if f1 == f0 || f1 >= n {
        return None;
    }
    let l0 = f1 + 1;
    let l1 = scan_class(v, l0, CharClass::Digit);
    if l1 == l0 || l1 >= n {
        return None;
    }
    if v[l1] != ':' {
        return None;
    }
    let c0 = l1 + 1;
    let c1 = scan_class(v, c0, CharClass::Digit);
    if c1 == c0 {
        return None;
    }
    proof {
        lemma_scan_end(v@, l0 as int, CharClass::Digit);
        lemma_scan_end(v@, c0 as int, CharClass::Digit);
    }
    let lineno = match parse_usize(v, l0, l1) {
        Some(x) => x,
        None => {
            return Some(Err(ClassifyError::LineNumberTooLarge));
        },
    };
    let colno = match parse_usize(v, c0, c1) {
        Some(x) => x,
        None => {
            return Some(Err(ClassifyError::ColumnNumberTooLarge));
        },
    };
    let file = line.substring_char(f0, f1).to_owned();
    Some(Ok(ParsedLine::BacktraceSource(SourceInfo { file, lineno, colno })))
}

/// Classifies one line of input. Patterns are tried in priority order:
/// the backtrace start marker, the panic report, the frame header, the
/// frame source position; a line matching none of them is `Other`. The
/// only error is a numeric capture that does not fit its integer type.
pub fn classify(line: &str) -> (r: Result<ParsedLine, ClassifyError>)
    ensures
        match (r, classify_full(line@)) {
            (Ok(l), Ok(lv)) => l@ == lv,
            (Err(e), Err(ev)) => e == ev,
            _ => false,
        },
{
    let v = crate::text::chars_of(line);
    if check_backtrace_start(&v) {
        return Ok(ParsedLine::BacktraceStart);
    }
    if let Some(l) = try_panic(&v, line) {
        return Ok(l);
    }
    match try_frame(&v, line) {
        Some(res) => {
            return res;
        },
        None => {},
    }
    match try_source(&v, line) {
        Some(res) => {
            return res;
        },
        None => {},
    }
    Ok(ParsedLine::Other(line.to_owned()))
}

} // verus!
