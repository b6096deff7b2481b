//! The renderer: walks a backtrace newest-frame-first, consults the frame
//! filter, coalesces runs of hidden frames into one banner, and emits
//! styled output lines: a header band, the shown frames with their source
//! positions and code snippets, the panic report, and a closing blank
//! line. The emitted lines are values; printing them is the caller's side
//! effect.
use vstd::prelude::*;

use crate::config::hyperlink_url;
use crate::config::HyperLinks;
use crate::config::HyperLinksV;
use crate::filter::filters_after;
use crate::filter::filters_step;
use crate::filter::span_decisions;
use crate::filter::Filters;
use crate::layout::linenos_in_range;
use crate::layout::max_frame_width;
use crate::layout::max_frameno;
use crate::layout::max_i;
use crate::layout::max_lineno3;
use crate::layout::min_i;
use crate::text::centered;
use crate::text::centered_chars;
use crate::text::chars_to_string;
use crate::text::dec_str;
use crate::text::digit_count;
use crate::text::pad_left;
use crate::text::push_chars;
use crate::text::push_dec_u64;
use crate::text::push_repeat;
use crate::text::push_str_chars;
use crate::Backtrace;
use crate::Frame;
use crate::FrameFilter;
use crate::FrameV;
use crate::PanicInfo;
use crate::PanicInfoV;
use crate::SourceInfoV;

verus! {

/// How a piece of emitted text is styled.
#[derive(Clone, Copy, Debug, PartialEq, Eq, Structural)]
pub enum Style {
    Plain,
    Green,
    Red,
    Cyan,
    Bold,
}

/// One styled piece of an output line.
pub struct Chunk {
    pub style: Style,
    pub text: String,
}

/// Mathematical model of a `Chunk`.
pub ghost struct ChunkV {
    pub style: Style,
    pub text: Seq<char>,
}

impl View for Chunk {
    type V = ChunkV;

    open spec fn view(&self) -> ChunkV {
        ChunkV { style: self.style, text: self.text@ }
    }
}

impl DeepView for Chunk {
    type V = ChunkV;

    open spec fn deep_view(&self) -> ChunkV {
        self.view()
    }
}

/// One output line: its styled pieces, in order, without the newline.
pub struct OutLine {
    pub chunks: Vec<Chunk>,
}

impl View for OutLine {
    type V = Seq<ChunkV>;

    open spec fn view(&self) -> Seq<ChunkV> {
        self.chunks.deep_view()
    }
}

impl DeepView for OutLine {
    type V = Seq<ChunkV>;

    open spec fn deep_view(&self) -> Seq<ChunkV> {
        self.view()
    }
}

/// What the caller gathered for one frame, in parse order: the lines of
/// its source file when the file could be read, and the canonicalized
/// form of its path when it could be resolved.
pub struct FrameContext {
    pub source_lines: Option<Vec<String>>,
    pub canonical_path: Option<String>,
}

/// Mathematical model of a `FrameContext`.
pub ghost struct FrameContextV {
    pub source_lines: Option<Seq<Seq<char>>>,
    pub canonical_path: Option<Seq<char>>,
}

impl View for FrameContext {
    type V = FrameContextV;

    open spec fn view(&self) -> FrameContextV {
        FrameContextV {
            source_lines: match &self.source_lines {
                Some(ls) => Some(ls.deep_view()),
                None => None,
            },
            canonical_path: match &self.canonical_path {
                Some(p) => Some(p@),
                None => None,
            },
        }
    }
}

impl DeepView for FrameContext {
    type V = FrameContextV;

    open spec fn deep_view(&self) -> FrameContextV {
        self.view()
    }
}

/// A clickable location: display text and target URL, rendered as a
/// terminal hyperlink escape sequence.
pub struct Link {
    pub text: String,
    pub url: String,
}

/// The terminal hyperlink escape sequence around `text`, pointing at
/// `url`.
pub open spec fn link_text(text: Seq<char>, url: Seq<char>) -> Seq<char> {
    "\u{1b}]8;;"@ + url + "\u{1b}\\"@ + text + "\u{1b}]8;;"@ + "\u{1b}\\"@
}

impl Link {
    /// A link with the given display text and target URL.
    pub fn new(text: String, url: String) -> (r: Link)
        ensures
            r.text@ == text@,
            r.url@ == url@,
    {
        Link { text, url }
    }

    /// The escape sequence that displays the text as a hyperlink.
    pub fn render(&self) -> (r: String)
        ensures
            r@ == link_text(self.text@, self.url@),
    {
        let mut out: Vec<char> = Vec::new();
        push_str_chars(&mut out, "\u{1b}]8;;");
        push_str_chars(&mut out, self.url.as_str());
        push_str_chars(&mut out, "\u{1b}\\");
        push_str_chars(&mut out, self.text.as_str());
        push_str_chars(&mut out, "\u{1b}]8;;");
        push_str_chars(&mut out, "\u{1b}\\");
        chars_to_string(&out)
    }
}

/// A line of a single styled chunk.
pub open spec fn line1(style: Style, text: Seq<char>) -> Seq<ChunkV> {
    seq![ChunkV { style, text }]
}

/// An empty output line.
pub open spec fn blank_line() -> Seq<ChunkV> {
    Seq::empty()
}

/// The header band: the label centered in a heavy rule.
pub open spec fn header_band(tw: int) -> Seq<ChunkV> {
    line1(Style::Plain, centered(" BACKTRACE "@, '━', tw))
}

/// The hidden-run banner text: singular phrasing for exactly one hidden
/// frame, plural otherwise.
pub open spec fn banner_text(h: int) -> Seq<char> {
    " ("@ + dec_str(h) + (if h == 1 {
        " frame hidden) "@
    } else {
        " frames hidden) "@
    })
}

/// The lines a hidden run adds: nothing for an empty run, else one cyan
/// banner centered in a light dotted rule.
pub open spec fn banner_lines(h: int, tw: int) -> Seq<Seq<ChunkV>> {
    if h <= 0 {
        Seq::empty()
    } else {
        seq![line1(Style::Cyan, centered(banner_text(h), '┄', tw))]
    }
}

/// A frame's header line: the right-aligned frame number, a colon and a
/// space, then the function name in the emphasis color.
pub open spec fn frame_header_line(f: FrameV, fw: int) -> Seq<ChunkV> {
    seq![
        ChunkV { style: Style::Plain, text: pad_left(dec_str(f.frameno), fw) + ": "@ },
        ChunkV { style: Style::Green, text: f.function },
    ]
}

/// The `file:line:column` display text of a source position.
pub open spec fn location_text(si: SourceInfoV) -> Seq<char> {
    si.file + ":"@ + dec_str(si.lineno) + ":"@ + dec_str(si.colno)
}

/// The location line under a frame header: padding, `  at `, and the
/// location, wrapped as a hyperlink when links are enabled and the path
/// could be canonicalized.
pub open spec fn source_line(
    si: SourceInfoV,
    fw: int,
    links: HyperLinksV,
    canonical: Option<Seq<char>>,
) -> Seq<ChunkV> {
    let text = location_text(si);
    let body = if links.enabled && canonical is Some {
        link_text(text, hyperlink_url(links.url, canonical->Some_0, si.lineno, si.colno))
    } else {
        text
    };
    line1(Style::Plain, crate::text::repeat_char(' ', fw) + "  at "@ + body)
}

/// One code-snippet row: padding, the right-aligned line number, a bar,
/// and the file's line; the target line is emphasized.
pub open spec fn snippet_row(
    si: SourceInfoV,
    ls: Seq<Seq<char>>,
    fw: int,
    lw: int,
    rowno: int,
) -> Seq<ChunkV> {
    line1(
        if rowno == si.lineno {
            Style::Bold
        } else {
            Style::Plain
        },
        crate::text::repeat_char(' ', fw) + "    "@ + pad_left(dec_str(rowno), lw) + " | "@
            + ls[rowno - 1],
    )
}

/// The code-context block: up to five lines of the file centered on the
/// reported line, fewer at the file's boundaries; nothing when the file
/// could not be read.
pub open spec fn snippet_lines(
    si: SourceInfoV,
    lines_opt: Option<Seq<Seq<char>>>,
    fw: int,
    lw: int,
) -> Seq<Seq<ChunkV>> {
    match lines_opt {
        None => Seq::empty(),
        Some(ls) => {
            let lo = max_i(1, si.lineno - 2);
            let hi = min_i(ls.len() as int, si.lineno + 2);
            if hi >= lo {
                Seq::new((hi - lo + 1) as nat, |k: int| snippet_row(si, ls, fw, lw, lo + k))
            } else {
                Seq::empty()
            }
        },
    }
}

/// Everything one shown frame emits: its header line, then, when it has a
/// source position, the location line and the code-context block.
pub open spec fn frame_block(
    f: FrameV,
    ctx: FrameContextV,
    fw: int,
    lw: int,
    links: HyperLinksV,
) -> Seq<Seq<ChunkV>> {
    seq![frame_header_line(f, fw)] + match f.source_info {
        Some(si) => seq![source_line(si, fw, links, ctx.canonical_path)] + snippet_lines(
            si,
            ctx.source_lines,
            fw,
            lw,
        ),
        None => Seq::empty(),
    }
}

/// The lines of the frame walk: frames and their contexts in display
/// order, with the hide decisions; hidden frames accumulate into a run
/// that is flushed as one banner before the next shown frame and once
/// more at the end.
pub open spec fn frames_section(
    fs: Seq<FrameV>,
    ctxs: Seq<FrameContextV>,
    d: Seq<bool>,
    fw: int,
    lw: int,
    tw: int,
    links: HyperLinksV,
    hidden: int,
) -> Seq<Seq<ChunkV>>
    decreases fs.len(),
{
    if fs.len() == 0 {
        banner_lines(hidden, tw)
    } else if d[0] {
        frames_section(
            fs.drop_first(),
            ctxs.drop_first(),
            d.drop_first(),
            fw,
            lw,
            tw,
            links,
            hidden + 1,
        )
    } else {
        banner_lines(hidden, tw) + frame_block(fs[0], ctxs[0], fw, lw, links) + frames_section(
            fs.drop_first(),
            ctxs.drop_first(),
            d.drop_first(),
            fw,
            lw,
            tw,
            links,
            0,
        )
    }
}

/// The panic report: the thread and location line, then the message
/// lines, all in the alert color.
pub open spec fn panic_section(p: Option<PanicInfoV>) -> Seq<Seq<ChunkV>> {
    match p {
        None => Seq::empty(),
        Some(pi) => seq![line1(Style::Red, "thread '"@ + pi.thread + "' panicked at "@ + pi.at)]
            + pi.message.map_values(|m: Seq<char>| line1(Style::Red, m)),
    }
}

/// The function names of a frame sequence, in the same order.
pub open spec fn functions_of(frames: Seq<FrameV>) -> Seq<Seq<char>> {
    frames.map_values(|f: FrameV| f.function)
}

/// Everything rendering one backtrace emits: nothing for an empty frame
/// list; otherwise a blank line, the header band, the frame walk in
/// display order (newest frame first), the panic report, and a final
/// blank line.
pub open spec fn render_spec(
    bt: BacktraceV,
    ctxs: Seq<FrameContextV>,
    d: Seq<bool>,
    fw: int,
    lw: int,
    tw: int,
    links: HyperLinksV,
) -> Seq<Seq<ChunkV>> {
    if bt.frames.len() == 0 {
        Seq::empty()
    } else {
        seq![blank_line(), header_band(tw)] + frames_section(
            bt.frames.reverse(),
            ctxs.reverse(),
            d,
            fw,
            lw,
            tw,
            links,
            0,
        ) + panic_section(bt.panic_info) + seq![blank_line()]
    }
}

use crate::BacktraceV;

/// A line that shows in the hidden-run banner color. No other line of
/// the frame walk uses that color.
pub open spec fn is_banner_line(l: Seq<ChunkV>) -> bool {
    exists|i: int| 0 <= i < l.len() && l[i].style == Style::Cyan
}

/// How many banner lines a stretch of output holds.
pub open spec fn banner_count(lines: Seq<Seq<ChunkV>>) -> int
    decreases lines.len(),
{
    if lines.len() == 0 {
        0
    } else {
        (if is_banner_line(lines[0]) {
            1int
        } else {
            0int
        }) + banner_count(lines.drop_first())
    }
}

/// How many maximal runs of hidden frames a decision sequence holds: a
/// run starts at a hidden frame not preceded by one (`prev` carries
/// whether the frame before the sequence was hidden).
pub open spec fn hidden_run_count(d: Seq<bool>, prev: bool) -> int
    decreases d.len(),
{
    if d.len() == 0 {
        0
    } else {
        (if d[0] && !prev {
            1int
        } else {
            0int
        }) + hidden_run_count(d.drop_first(), d[0])
    }
}

proof fn lemma_banner_count_concat(a: Seq<Seq<ChunkV>>, b: Seq<Seq<ChunkV>>)
    ensures
        banner_count(a + b) == banner_count(a) + banner_count(b),
    decreases a.len(),
{
    if a.len() == 0 {
        assert(a + b =~= b);
    } else {
        assert((a + b).drop_first() =~= a.drop_first() + b);
        assert((a + b)[0] == a[0]);
        lemma_banner_count_concat(a.drop_first(), b);
    }
}

proof fn lemma_banner_count_zero(lines: Seq<Seq<ChunkV>>)
    requires
        forall|i: int| 0 <= i < lines.len() ==> !is_banner_line(#[trigger] lines[i]),
    ensures
        banner_count(lines) == 0,
    decreases lines.len(),
{
    if lines.len() > 0 {
        lemma_banner_count_zero(lines.drop_first());
    }
}

proof fn lemma_frame_block_has_no_banner(
    f: FrameV,
    ctx: FrameContextV,
    fw: int,
    lw: int,
    links: HyperLinksV,
)
    ensures
        banner_count(frame_block(f, ctx, fw, lw, links)) == 0,
{
    let block = frame_block(f, ctx, fw, lw, links);
    assert forall|i: int| 0 <= i < block.len() implies !is_banner_line(#[trigger] block[i]) by {
        match f.source_info {
            None => {
                assert(block =~= seq![frame_header_line(f, fw)]);
                assert(block[i] == frame_header_line(f, fw));
            },
            Some(si) => {
                if i == 0 {
                    assert(block[0] == frame_header_line(f, fw));
                } else if i == 1 {
                    assert(block[1] == source_line(si, fw, links, ctx.canonical_path));
                } else {
                    let rows = snippet_lines(si, ctx.source_lines, fw, lw);
                    assert(block[i] == rows[i - 2]);
                    match ctx.source_lines {
                        None => {},
                        Some(ls) => {
                            let lo = max_i(1, si.lineno - 2);
                            assert(rows[i - 2] == snippet_row(
                                si,
                                ls,
                                fw,
                                lw,
                                lo + (i - 2),
                            ));
                        },
                    }
                }
            },
        }
    }
    lemma_banner_count_zero(block);
}

#[verifier::rlimit(50)]
proof fn lemma_frames_section_banners(
    fs: Seq<FrameV>,
    ctxs: Seq<FrameContextV>,
    d: Seq<bool>,
    fw: int,
    lw: int,
    tw: int,
    links: HyperLinksV,
    hidden: int,
)
    requires
        d.len() == fs.len(),
        ctxs.len() == fs.len(),
        hidden >= 0,
    ensures
        banner_count(frames_section(fs, ctxs, d, fw, lw, tw, links, hidden)) == hidden_run_count(
            d,
            hidden > 0,
        ) + (if hidden > 0 {
            1int
        } else {
            0int
        }),
    decreases fs.len(),
{
    reveal_with_fuel(banner_count, 3);
    if fs.len() == 0 {
        if hidden > 0 {
            assert(banner_lines(hidden, tw)[0][0].style == Style::Cyan);
            assert(is_banner_line(banner_lines(hidden, tw)[0]));
            assert(banner_lines(hidden, tw).drop_first() =~= Seq::<Seq<ChunkV>>::empty());
            assert(banner_count(banner_lines(hidden, tw)) == 1);
        } else {
            assert(banner_count(banner_lines(hidden, tw)) == 0);
        }
        assert(frames_section(fs, ctxs, d, fw, lw, tw, links, hidden) == banner_lines(
            hidden,
            tw,
        ));
        assert(hidden_run_count(d, hidden > 0) == 0);
    } else if d[0] {
        lemma_frames_section_banners(
            fs.drop_first(),
            ctxs.drop_first(),
            d.drop_first(),
            fw,
            lw,
            tw,
            links,
            hidden + 1,
        );
        assert(frames_section(fs, ctxs, d, fw, lw, tw, links, hidden) == frames_section(
            fs.drop_first(),
            ctxs.drop_first(),
            d.drop_first(),
            fw,
            lw,
            tw,
            links,
            hidden + 1,
        ));
        assert(hidden_run_count(d, hidden > 0) == (if !(hidden > 0) {
            1int
        } else {
            0int
        }) + hidden_run_count(d.drop_first(), true));
    } else {
        lemma_frames_section_banners(
            fs.drop_first(),
            ctxs.drop_first(),
            d.drop_first(),
            fw,
            lw,
            tw,
            links,
            0,
        );
        let block = frame_block(fs[0], ctxs[0], fw, lw, links);
        let rest = frames_section(
            fs.drop_first(),
            ctxs.drop_first(),
            d.drop_first(),
            fw,
            lw,
            tw,
            links,
            0,
        );
        lemma_frame_block_has_no_banner(fs[0], ctxs[0], fw, lw, links);
        lemma_banner_count_concat(banner_lines(hidden, tw), block);
        lemma_banner_count_concat(banner_lines(hidden, tw) + block, rest);
        if hidden > 0 {
            assert(banner_lines(hidden, tw)[0][0].style == Style::Cyan);
            assert(is_banner_line(banner_lines(hidden, tw)[0]));
            assert(banner_lines(hidden, tw).drop_first() =~= Seq::<Seq<ChunkV>>::empty());
            assert(banner_count(banner_lines(hidden, tw)) == 1);
        } else {
            assert(banner_count(banner_lines(hidden, tw)) == 0);
        }
        assert(frames_section(fs, ctxs, d, fw, lw, tw, links, hidden) == banner_lines(hidden, tw)
            + block + rest);
        assert(hidden_run_count(d, hidden > 0) == hidden_run_count(d.drop_first(), false));
    }
}

/// The frame walk emits exactly one banner per maximal run of hidden
/// frames: however long a run is, it collapses into a single banner, and
/// no banner appears anywhere else.
pub proof fn lemma_one_banner_per_hidden_run(
    fs: Seq<FrameV>,
    ctxs: Seq<FrameContextV>,
    d: Seq<bool>,
    fw: int,
    lw: int,
    tw: int,
    links: HyperLinksV,
)
    requires
        d.len() == fs.len(),
        ctxs.len() == fs.len(),
    ensures
        banner_count(frames_section(fs, ctxs, d, fw, lw, tw, links, 0)) == hidden_run_count(
            d,
            false,
        ),
{
    lemma_frames_section_banners(fs, ctxs, d, fw, lw, tw, links, 0);
}

/// Rendering the traversal `[shown, hidden, hidden, shown]` emits the
/// first frame's block, then exactly one banner, for a run of two, then
/// the last frame's block: consecutive hidden frames coalesce into one
/// banner between the two shown frames.
pub proof fn lemma_hidden_run_coalescing(
    fs: Seq<FrameV>,
    ctxs: Seq<FrameContextV>,
    fw: int,
    lw: int,
    tw: int,
    links: HyperLinksV,
)
    requires
        fs.len() == 4,
        ctxs.len() == 4,
    ensures
        frames_section(fs, ctxs, seq![false, true, true, false], fw, lw, tw, links, 0)
            == frame_block(fs[0], ctxs[0], fw, lw, links) + banner_lines(2, tw) + frame_block(
            fs[3],
            ctxs[3],
            fw,
            lw,
            links,
        ),
{
    reveal_with_fuel(frames_section, 6);
    let d = seq![false, true, true, false];
    assert(d.drop_first() =~= seq![true, true, false]);
    assert(seq![true, true, false].drop_first() =~= seq![true, false]);
    assert(seq![true, false].drop_first() =~= seq![false]);
    assert(seq![false].drop_first() =~= Seq::<bool>::empty());
    assert(fs.drop_first().drop_first().drop_first().drop_first() =~= Seq::<FrameV>::empty());
    assert(fs.drop_first().drop_first().drop_first()[0] == fs[3]);
    assert(ctxs.drop_first().drop_first().drop_first()[0] == ctxs[3]);
    assert(banner_lines(0, tw) =~= Seq::<Seq<ChunkV>>::empty());
    assert(frames_section(fs, ctxs, d, fw, lw, tw, links, 0) =~= frame_block(
        fs[0],
        ctxs[0],
        fw,
        lw,
        links,
    ) + banner_lines(2, tw) + frame_block(fs[3], ctxs[3], fw, lw, links));
}

/// A hidden run of exactly one frame is announced in the singular.
pub proof fn lemma_hidden_run_singular(
    fs: Seq<FrameV>,
    ctxs: Seq<FrameContextV>,
    fw: int,
    lw: int,
    tw: int,
    links: HyperLinksV,
)
    requires
        fs.len() == 3,
        ctxs.len() == 3,
    ensures
        frames_section(fs, ctxs, seq![false, true, false], fw, lw, tw, links, 0) == frame_block(
            fs[0],
            ctxs[0],
            fw,
            lw,
            links,
        ) + seq![line1(Style::Cyan, centered(" ("@ + dec_str(1) + " frame hidden) "@, '┄', tw))]
            + frame_block(fs[2], ctxs[2], fw, lw, links),
{
    reveal_with_fuel(frames_section, 5);
    let d = seq![false, true, false];
    assert(d.drop_first() =~= seq![true, false]);
    assert(seq![true, false].drop_first() =~= seq![false]);
    assert(seq![false].drop_first() =~= Seq::<bool>::empty());
    assert(fs.drop_first().drop_first().drop_first() =~= Seq::<FrameV>::empty());
    assert(fs.drop_first().drop_first()[0] == fs[2]);
    assert(ctxs.drop_first().drop_first()[0] == ctxs[2]);
    assert(banner_lines(0, tw) =~= Seq::<Seq<ChunkV>>::empty());
    assert(banner_lines(1, tw) =~= seq![line1(Style::Cyan, centered(banner_text(1), '┄', tw))]);
    assert(frames_section(fs, ctxs, d, fw, lw, tw, links, 0) =~= frame_block(
        fs[0],
        ctxs[0],
        fw,
        lw,
        links,
    ) + banner_lines(1, tw) + frame_block(fs[2], ctxs[2], fw, lw, links));
}

fn line_of(style: Style, text: Vec<char>) -> (r: OutLine)
    ensures
        r@ == line1(style, text@),
{
    let mut chunks: Vec<Chunk> = Vec::new();
    chunks.push(Chunk { style, text: chars_to_string(&text) });
    let r = OutLine { chunks };
    proof {
        assert(r@ =~= line1(style, text@));
    }
    r
}

fn push_banner(out: &mut Vec<OutLine>, hidden: usize, tw: usize)
    ensures
        final(out).deep_view() == old(out).deep_view() + banner_lines(hidden as int, tw as int),
{
    if hidden == 0 {
        proof {
            assert(final(out).deep_view() =~= old(out).deep_view() + banner_lines(
                hidden as int,
                tw as int,
            ));
        }
        return ;
    }
    let mut text: Vec<char> = Vec::new();
    push_str_chars(&mut text, " (");
    push_dec_u64(&mut text, hidden as u64);
    if hidden == 1 {
        push_str_chars(&mut text, " frame hidden) ");
    } else {
        push_str_chars(&mut text, " frames hidden) ");
    }
    proof {
        assert(text@ == banner_text(hidden as int));
    }
    let banner = centered_chars(&text, '┄', tw);
    let ghost before = out.deep_view();
    let line = line_of(Style::Cyan, banner);
    let ghost lv = line@;
    out.push(line);
    proof {
        assert(out.deep_view() =~= before.push(lv));
        assert(before.push(lv) =~= before + banner_lines(hidden as int, tw as int));
    }
}

fn push_line(out: &mut Vec<OutLine>, line: OutLine)
    ensures
        final(out).deep_view() == old(out).deep_view() + seq![line@],
{
    let ghost before = out.deep_view();
    let ghost lv = line@;
    out.push(line);
    proof {
        assert(out.deep_view() =~= before.push(lv));
        assert(before.push(lv) =~= before + seq![lv]);
    }
}

fn push_blank(out: &mut Vec<OutLine>)
    ensures
        final(out).deep_view() == old(out).deep_view() + seq![blank_line()],
{
    let line = OutLine { chunks: Vec::new() };
    proof {
        assert(line@ =~= blank_line());
    }
    push_line(out, line);
}

#[verifier::rlimit(50)]
fn push_frame_block(
    out: &mut Vec<OutLine>,
    f: &Frame,
    ctx: &FrameContext,
    fw: usize,
    lw: usize,
    links: &HyperLinks,
)
    requires
        f@.source_info matches Some(si) ==> si.lineno + 3 <= usize::MAX as int,
    ensures
        final(out).deep_view() == old(out).deep_view() + frame_block(
            f@,
            ctx@,
            fw as int,
            lw as int,
            links@,
        ),
{
    // the header line: right-aligned number, colon, space, then the name
    let mut numtext: Vec<char> = Vec::new();
    push_dec_u64(&mut numtext, f.frameno as u64);
    let mut prefix: Vec<char> = Vec::new();
    if numtext.len() < fw {
        push_repeat(&mut prefix, ' ', fw - numtext.len());
    }
    push_chars(&mut prefix, &numtext);
    push_str_chars(&mut prefix, ": ");
    proof {
        assert(prefix@ =~= pad_left(dec_str(f.frameno as int), fw as int) + ": "@);
    }
    let mut chunks: Vec<Chunk> = Vec::new();
    chunks.push(Chunk { style: Style::Plain, text: chars_to_string(&prefix) });
    chunks.push(Chunk { style: Style::Green, text: f.function.clone() });
    let header = OutLine { chunks };
    proof {
        assert(header@ =~= frame_header_line(f@, fw as int));
    }
    push_line(out, header);
    match &f.source_info {
        None => {
            proof {
                assert(final(out).deep_view() =~= old(out).deep_view() + frame_block(
                    f@,
                    ctx@,
                    fw as int,
                    lw as int,
                    links@,
                ));
            }
        },
        Some(si) => {
            // the location line, as a hyperlink when enabled and resolvable
            let mut loc: Vec<char> = Vec::new();
            push_str_chars(&mut loc, si.file.as_str());
            push_str_chars(&mut loc, ":");
            push_dec_u64(&mut loc, si.lineno as u64);
            push_str_chars(&mut loc, ":");
            push_dec_u64(&mut loc, si.colno as u64);
            proof {
                assert(loc@ =~= location_text(si@));
            }
            let mut body: Vec<char> = Vec::new();
            push_repeat(&mut body, ' ', fw);
            push_str_chars(&mut body, "  at ");
            let mut linked = false;
            if links.enabled {
                match &ctx.canonical_path {
                    Some(canon) => {
                        let url = links.render(canon.as_str(), si.lineno, si.colno);
                        let link = Link::new(chars_to_string(&loc), url);
                        let rendered = link.render();
                        push_str_chars(&mut body, rendered.as_str());
                        linked = true;
                    },
                    None => {},
                }
            }
            if !linked {
                push_chars(&mut body, &loc);
            }
            let locline = line_of(Style::Plain, body);
            proof {
                assert(locline@ =~= source_line(si@, fw as int, links@, ctx@.canonical_path));
            }
            push_line(out, locline);
            // the code-context block, when the file could be read
            match &ctx.source_lines {
                None => {
                    proof {
                        assert(snippet_lines(si@, ctx@.source_lines, fw as int, lw as int)
                            =~= Seq::<Seq<ChunkV>>::empty());
                        assert(final(out).deep_view() =~= old(out).deep_view() + frame_block(
                            f@,
                            ctx@,
                            fw as int,
                            lw as int,
                            links@,
                        ));
                    }
                },
                Some(ls) => {
                    let lo: usize = if si.lineno <= 2 {
                        1
                    } else {
                        si.lineno - 2
                    };
                    let hi: usize = if ls.len() <= si.lineno + 2 {
                        ls.len()
                    } else {
                        si.lineno + 2
                    };
                    let ghost rows = snippet_lines(si@, ctx@.source_lines, fw as int, lw as int);
                    let ghost emitted_before = out.deep_view();
                    let mut rowno = lo;
                    proof {
                        assert(out.deep_view() =~= emitted_before + rows.subrange(0, 0));
                    }
                    if lo <= hi
                    {
                    while rowno <= hi
                        invariant
                            lo <= rowno,
                            rowno <= hi + 1,
                            lo == max_i(1, si@.lineno - 2),
                            hi as int == min_i(ls.deep_view().len() as int, si@.lineno + 2),
                            hi <= ls@.len(),
                            si@.lineno + 3 <= usize::MAX as int,
                            ls.deep_view() == ctx@.source_lines->Some_0,
                            rows == snippet_lines(si@, ctx@.source_lines, fw as int, lw as int),
                            rows.len() == if hi >= lo {
                                hi - lo + 1
                            } else {
                                0
                            },
                            si@ == si.deep_view(),
                            out.deep_view() =~= emitted_before + rows.subrange(
                                0,
                                rowno - lo,
                            ),
                        decreases hi + 1 - rowno,
                    {
                        let mut row: Vec<char> = Vec::new();
                        push_repeat(&mut row, ' ', fw);
                        push_str_chars(&mut row, "    ");
                        let mut numtext: Vec<char> = Vec::new();
                        push_dec_u64(&mut numtext, rowno as u64);
                        if numtext.len() < lw {
                            push_repeat(&mut row, ' ', lw - numtext.len());
                        }
                        push_chars(&mut row, &numtext);
                        push_str_chars(&mut row, " | ");
                        push_str_chars(&mut row, ls[rowno - 1].as_str());
                        let style = if rowno == si.lineno {
                            Style::Bold
                        } else {
                            Style::Plain
                        };
                        proof {
                            assert(ls.deep_view()[rowno - 1] == ls@[rowno - 1]@);
                            assert(row@ =~= crate::text::repeat_char(' ', fw as int) + "    "@
                                + pad_left(dec_str(rowno as int), lw as int) + " | "@
                                + ls.deep_view()[rowno - 1]);
                        }
                        let line = line_of(style, row);
                        proof {
                            assert(line@ =~= snippet_row(
                                si@,
                                ls.deep_view(),
                                fw as int,
                                lw as int,
                                rowno as int,
                            ));
                            assert(rows[rowno - lo] == snippet_row(
                                si@,
                                ls.deep_view(),
                                fw as int,
                                lw as int,
                                rowno as int,
                            ));
                        }
                        push_line(out, line);
                        rowno = rowno + 1;
                        proof {
                            assert(rows.subrange(0, rowno - lo).drop_last() =~= rows.subrange(
                                0,
                                rowno - 1 - lo,
                            ));
                            assert(out.deep_view() =~= emitted_before + rows.subrange(
                                0,
                                rowno - lo,
                            ));
                        }
                    }
                    }
                    proof {
                        if lo <= hi {
                            assert(rows.subrange(0, rows.len() as int) =~= rows);
                        } else {
                            assert(rows =~= Seq::<Seq<ChunkV>>::empty());
                            assert(emitted_before + rows =~= emitted_before);
                        }
                        assert(final(out).deep_view() =~= old(out).deep_view() + frame_block(
                            f@,
                            ctx@,
                            fw as int,
                            lw as int,
                            links@,
                        ));
                    }
                },
            }
        },
    }
}

fn push_panic(out: &mut Vec<OutLine>, pi: &PanicInfo)
    ensures
        final(out).deep_view() == old(out).deep_view() + panic_section(Some(pi@)),
{
    let mut head: Vec<char> = Vec::new();
    push_str_chars(&mut head, "thread '");
    push_str_chars(&mut head, pi.thread.as_str());
    push_str_chars(&mut head, "' panicked at ");
    push_str_chars(&mut head, pi.at.as_str());
    let line = line_of(Style::Red, head);
    proof {
        assert(line@ =~= line1(Style::Red, "thread '"@ + pi@.thread + "' panicked at "@ + pi@.at));
    }
    push_line(out, line);
    let ghost msgs = pi@.message.map_values(|m: Seq<char>| line1(Style::Red, m));
    let ghost base = out.deep_view();
    let n = pi.message.len();
    let mut i: usize = 0;
    proof {
        assert(out.deep_view() =~= base + msgs.subrange(0, 0));
    }
    while i < n
        invariant
            i <= n,
            n == pi.message@.len(),
            msgs == pi@.message.map_values(|m: Seq<char>| line1(Style::Red, m)),
            msgs.len() == n,
            pi@ == pi.view(),
            out.deep_view() =~= base + msgs.subrange(0, i as int),
        decreases n - i,
    {
        let mut text: Vec<char> = Vec::new();
        push_str_chars(&mut text, pi.message[i].as_str());
        let line = line_of(Style::Red, text);
        proof {
            assert(pi@.message[i as int] == pi.message@[i as int]@);
            assert(line@ =~= msgs[i as int]);
        }
        push_line(out, line);
        i = i + 1;
        proof {
            assert(msgs.subrange(0, i as int).drop_last() =~= msgs.subrange(0, i - 1));
            assert(out.deep_view() =~= base + msgs.subrange(0, i as int));
        }
    }
    proof {
        assert(msgs.subrange(0, n as int) =~= msgs);
        assert(final(out).deep_view() =~= old(out).deep_view() + panic_section(Some(pi@)));
    }
}

impl Backtrace {
    /// Renders this backtrace: computes the layout widths, walks the
    /// frames newest-first consulting the filters, coalesces hidden runs,
    /// and returns the styled lines. `contexts` carries, per frame in
    /// parse order, the source-file lines and canonicalized path the
    /// caller could gather; `term_width` is the terminal column width.
    pub fn render(
        &self,
        links: &HyperLinks,
        filters: &mut Filters,
        term_width: usize,
        contexts: &Vec<FrameContext>,
    ) -> (out: Vec<OutLine>)
        requires
            contexts@.len() == self.frames@.len(),
            linenos_in_range(self@.frames),
        ensures
            out.deep_view() == render_spec(
                self@,
                contexts.deep_view(),
                span_decisions(old(filters)@, functions_of(self@.frames.reverse())),
                digit_count(max_frameno(self@.frames)),
                digit_count(max_lineno3(self@.frames)),
                min_i(
                    term_width as int,
                    max_frame_width(self@.frames, digit_count(max_frameno(self@.frames))),
                ),
                links@,
            ),
            final(filters)@ == filters_after(
                old(filters)@,
                functions_of(self@.frames.reverse()),
            ),
    {
        let ghost fs0 = filters@;
        let fw = self.compute_frameno_width();
        let lw = self.compute_lineno_width();
        let tw = self.compute_width(fw, term_width);
        let mut out: Vec<OutLine> = Vec::new();
        let n = self.frames.len();
        if n == 0 {
            proof {
                assert(out.deep_view() =~= Seq::<Seq<ChunkV>>::empty());
                assert(functions_of(self@.frames.reverse()) =~= Seq::<Seq<char>>::empty());
            }
            return out;
        }
        let ghost disp = self@.frames.reverse();
        let ghost dctxs = contexts.deep_view().reverse();
        let ghost dfns = functions_of(disp);
        let ghost d = span_decisions(fs0, dfns);
        push_blank(&mut out);
        let mut band: Vec<char> = Vec::new();
        push_str_chars(&mut band, " BACKTRACE ");
        let banded = centered_chars(&band, '━', tw);
        let header = line_of(Style::Plain, banded);
        proof {
            assert(header@ =~= header_band(tw as int));
        }
        push_line(&mut out, header);
        let ghost head2 = out.deep_view();
        let mut hidden: usize = 0;
        let mut k: usize = 0;
        proof {
            assert(disp.skip(0) =~= disp);
            assert(dctxs.skip(0) =~= dctxs);
            assert(dfns.skip(0) =~= dfns);
            assert(head2 + frames_section(disp, dctxs, d, fw as int, lw as int, tw as int, links@, 0)
                =~= out.deep_view() + frames_section(
                disp.skip(0),
                dctxs.skip(0),
                span_decisions(filters@, dfns.skip(0)),
                fw as int,
                lw as int,
                tw as int,
                links@,
                0,
            ));
        }
        while k < n
            invariant
                k <= n,
                hidden <= k,
                n == self.frames@.len(),
                contexts@.len() == n,
                linenos_in_range(self@.frames),
                disp == self@.frames.reverse(),
                dctxs == contexts.deep_view().reverse(),
                dfns == functions_of(disp),
                disp.len() == n,
                dctxs.len() == n,
                dfns.len() == n,
                filters_after(filters@, dfns.skip(k as int)) == filters_after(fs0, dfns),
                head2 + frames_section(
                    disp,
                    dctxs,
                    d,
                    fw as int,
                    lw as int,
                    tw as int,
                    links@,
                    0,
                ) =~= out.deep_view() + frames_section(
                    disp.skip(k as int),
                    dctxs.skip(k as int),
                    span_decisions(filters@, dfns.skip(k as int)),
                    fw as int,
                    lw as int,
                    tw as int,
                    links@,
                    hidden as int,
                ),
            decreases n - k,
        {
            let idx = n - 1 - k;
            proof {
                assert(disp.skip(k as int)[0] == disp[k as int]);
                assert(disp[k as int] == self@.frames[idx as int]);
                assert(self@.frames[idx as int] == self.frames@[idx as int]@);
                assert(dctxs.skip(k as int)[0] == dctxs[k as int]);
                assert(dctxs[k as int] == contexts.deep_view()[idx as int]);
                assert(contexts.deep_view()[idx as int] == contexts@[idx as int]@);
                assert(dfns.skip(k as int)[0] == dfns[k as int]);
                assert(dfns[k as int] == disp[k as int].function);
            }
            let f = &self.frames[idx];
            let ghost fsk = filters@;
            let h = filters.should_hide(f);
            proof {
                assert(f.function@ == dfns.skip(k as int)[0]);
                assert(h == crate::filter::filters_hide(fsk, dfns.skip(k as int)[0]));
                assert(span_decisions(fsk, dfns.skip(k as int))[0] == h);
                assert(span_decisions(fsk, dfns.skip(k as int)).drop_first() == span_decisions(
                    filters_step(fsk, dfns.skip(k as int)[0]),
                    dfns.skip(k as int).drop_first(),
                ));
                assert(filters@ == filters_step(fsk, dfns.skip(k as int)[0]));
            }
            if h {
                hidden = hidden + 1;
            } else {
                push_banner(&mut out, hidden, tw);
                hidden = 0;
                proof {
                    let siv = self@.frames[idx as int].source_info;
                    assert(match siv {
                        Some(si) => si.lineno + 3 <= usize::MAX as int,
                        None => true,
                    });
                }
                push_frame_block(&mut out, f, &contexts[idx], fw, lw, links);
            }
            k = k + 1;
            proof {
                assert(disp.skip(k - 1).drop_first() =~= disp.skip(k as int));
                assert(dctxs.skip(k - 1).drop_first() =~= dctxs.skip(k as int));
                assert(dfns.skip(k - 1).drop_first() =~= dfns.skip(k as int));
            }
        }
        proof {
            assert(disp.skip(n as int) =~= Seq::<FrameV>::empty());
            assert(dctxs.skip(n as int) =~= Seq::<FrameContextV>::empty());
            assert(dfns.skip(n as int) =~= Seq::<Seq<char>>::empty());
        }
        push_banner(&mut out, hidden, tw);
        match &self.panic_info {
            Some(pi) => {
                push_panic(&mut out, pi);
            },
            None => {
                proof {
                    assert(panic_section(self@.panic_info) =~= Seq::<Seq<ChunkV>>::empty());
                }
            },
        }
        push_blank(&mut out);
        proof {
            assert(out.deep_view() =~= render_spec(
                self@,
                contexts.deep_view(),
                d,
                fw as int,
                lw as int,
                tw as int,
                links@,
            ));
        }
        out
    }
}

} // verus!
