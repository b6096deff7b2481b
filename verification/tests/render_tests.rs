use backtracetk::Backtrace;
use backtracetk::Filters;
use backtracetk::Frame;
use backtracetk::Hide;
use backtracetk::HyperLinks;
use backtracetk::Matcher;
use backtracetk::PanicInfo;
use backtracetk::SourceInfo;
use backtracetk::render::FrameContext;
use backtracetk::render::Link;
use backtracetk::render::OutLine;
use backtracetk::render::Style;

fn no_links() -> HyperLinks {
    HyperLinks { enabled: false, url: "file://${FILE_PATH}".to_string() }
}

fn plain_frame(function: &str, frameno: u32) -> Frame {
    Frame { function: function.to_string(), frameno, source_info: None }
}

fn empty_contexts(n: usize) -> Vec<FrameContext> {
    (0..n).map(|_| FrameContext { source_lines: None, canonical_path: None }).collect()
}

fn line_text(line: &OutLine) -> String {
    line.chunks.iter().map(|c| c.text.as_str()).collect()
}

fn render_plain(bt: &Backtrace, rules: &Vec<Hide>, term_width: usize) -> Vec<OutLine> {
    let mut filters = Filters::new(rules);
    let contexts = empty_contexts(bt.frames.len());
    bt.render(&no_links(), &mut filters, term_width, &contexts)
}

#[test]
fn empty_backtrace_renders_nothing() {
    let bt = Backtrace { frames: vec![], panic_info: None };
    assert!(render_plain(&bt, &vec![], 80).is_empty());
}

#[test]
fn header_band_and_blank_lines_frame_the_output() {
    // the frame is 18 characters wide, so the band is 1 + 2 + 18 = 21
    let bt = Backtrace { frames: vec![plain_frame("abcdefghijklmnopqr", 0)], panic_info: None };
    let out = render_plain(&bt, &vec![], 21);
    // blank line, header band, the frame line, trailing blank line
    assert_eq!(out.len(), 4);
    assert!(out[0].chunks.is_empty());
    assert_eq!(line_text(&out[1]), "━━━━━ BACKTRACE ━━━━━");
    assert!(out[3].chunks.is_empty());
}

#[test]
fn centered_band_puts_extra_fill_on_the_right() {
    // band width 1 + 2 + 11 = 14; 3 fill characters: one left, two right
    let bt = Backtrace { frames: vec![plain_frame("abcdefghijk", 0)], panic_info: None };
    let out = render_plain(&bt, &vec![], 14);
    assert_eq!(line_text(&out[1]), "━ BACKTRACE ━━");
}

#[test]
fn frames_render_newest_parsed_last_first() {
    let bt = Backtrace {
        frames: vec![plain_frame("innermost", 0), plain_frame("outermost", 1)],
        panic_info: None,
    };
    let out = render_plain(&bt, &vec![], 80);
    assert_eq!(line_text(&out[2]), "1: outermost");
    assert_eq!(line_text(&out[3]), "0: innermost");
}

#[test]
fn frame_line_styles_number_plain_and_function_green() {
    let bt = Backtrace { frames: vec![plain_frame("foo::bar", 7)], panic_info: None };
    let out = render_plain(&bt, &vec![], 80);
    let frame_line = &out[2];
    assert_eq!(frame_line.chunks.len(), 2);
    assert_eq!(frame_line.chunks[0].style, Style::Plain);
    assert_eq!(frame_line.chunks[0].text, "7: ");
    assert_eq!(frame_line.chunks[1].style, Style::Green);
    assert_eq!(frame_line.chunks[1].text, "foo::bar");
}

#[test]
fn frame_numbers_right_align_to_the_widest() {
    let bt = Backtrace {
        frames: (0..11).map(|n| plain_frame("f", n)).collect(),
        panic_info: None,
    };
    let out = render_plain(&bt, &vec![], 80);
    assert_eq!(line_text(&out[2]), "10: f");
    assert_eq!(line_text(&out[3]), " 9: f");
}

#[test]
fn hidden_run_coalesces_into_one_plural_banner() {
    let bt = Backtrace {
        frames: vec![
            plain_frame("shown_a", 0),
            plain_frame("hide_me_1", 1),
            plain_frame("hide_me_2", 2),
            plain_frame("shown_b", 3),
        ],
        panic_info: None,
    };
    let rules = vec![Hide::Pattern { pattern: Matcher::new("^hide_me").unwrap() }];
    let out = render_plain(&bt, &rules, 40);
    // blank, band, shown_b, banner, shown_a, blank
    assert_eq!(out.len(), 6);
    assert_eq!(line_text(&out[2]), "3: shown_b");
    let banner = &out[3];
    assert_eq!(banner.chunks.len(), 1);
    assert_eq!(banner.chunks[0].style, Style::Cyan);
    assert!(banner.chunks[0].text.contains("(2 frames hidden)"));
    assert_eq!(line_text(&out[4]), "0: shown_a");
    let banners = out
        .iter()
        .filter(|l| l.chunks.iter().any(|c| c.style == Style::Cyan))
        .count();
    assert_eq!(banners, 1);
}

#[test]
fn single_hidden_frame_banner_is_singular() {
    let bt = Backtrace {
        frames: vec![plain_frame("shown_a", 0), plain_frame("hide_me", 1), plain_frame("shown_b", 2)],
        panic_info: None,
    };
    let rules = vec![Hide::Pattern { pattern: Matcher::new("^hide_me$").unwrap() }];
    let out = render_plain(&bt, &rules, 40);
    assert!(line_text(&out[3]).contains("(1 frame hidden)"));
    assert!(!line_text(&out[3]).contains("frames"));
}

#[test]
fn trailing_hidden_run_is_flushed_after_the_last_frame() {
    let bt = Backtrace {
        frames: vec![plain_frame("hide_me", 0), plain_frame("shown", 1)],
        panic_info: None,
    };
    let rules = vec![Hide::Pattern { pattern: Matcher::new("^hide_me$").unwrap() }];
    let out = render_plain(&bt, &rules, 40);
    // blank, band, shown (frame 1), banner for the run at the end, blank
    assert_eq!(line_text(&out[2]), "1: shown");
    assert!(line_text(&out[3]).contains("(1 frame hidden)"));
}

#[test]
fn banner_centered_with_dotted_rule() {
    // the shown frame is 21 characters wide, so the band is 24
    let bt = Backtrace {
        frames: vec![plain_frame("hidden_one", 0), plain_frame("this_is_a_shown_frame", 1)],
        panic_info: None,
    };
    let rules = vec![Hide::Pattern { pattern: Matcher::new("^hidden_one$").unwrap() }];
    let out = render_plain(&bt, &rules, 24);
    // " (1 frame hidden) " is 18 characters; 6 fill: 3 left, 3 right
    assert_eq!(line_text(&out[3]), "┄┄┄ (1 frame hidden) ┄┄┄");
}

#[test]
fn source_location_line_under_the_frame() {
    let bt = Backtrace {
        frames: vec![Frame {
            function: "foo".to_string(),
            frameno: 0,
            source_info: Some(SourceInfo { file: "src/main.rs".to_string(), lineno: 3, colno: 5 }),
        }],
        panic_info: None,
    };
    let out = render_plain(&bt, &vec![], 80);
    assert_eq!(line_text(&out[3]), "   at src/main.rs:3:5");
}

#[test]
fn code_snippet_window_and_emphasis() {
    let file_lines: Vec<String> =
        (1..=8).map(|i| format!("line number {i}")).collect();
    let bt = Backtrace {
        frames: vec![Frame {
            function: "foo".to_string(),
            frameno: 0,
            source_info: Some(SourceInfo { file: "src/main.rs".to_string(), lineno: 4, colno: 1 }),
        }],
        panic_info: None,
    };
    let mut filters = Filters::new(&vec![]);
    let contexts = vec![FrameContext {
        source_lines: Some(file_lines),
        canonical_path: None,
    }];
    let out = bt.render(&no_links(), &mut filters, 80, &contexts);
    // blank, band, frame, location, five snippet rows (2..=6), blank
    assert_eq!(out.len(), 10);
    assert_eq!(line_text(&out[4]), "     2 | line number 2");
    assert_eq!(line_text(&out[5]), "     3 | line number 3");
    assert_eq!(line_text(&out[6]), "     4 | line number 4");
    assert_eq!(line_text(&out[7]), "     5 | line number 5");
    assert_eq!(line_text(&out[8]), "     6 | line number 6");
    assert_eq!(out[6].chunks[0].style, Style::Bold);
    assert_eq!(out[5].chunks[0].style, Style::Plain);
}

#[test]
fn code_snippet_clipped_at_file_start() {
    let file_lines: Vec<String> = (1..=5).map(|i| format!("l{i}")).collect();
    let bt = Backtrace {
        frames: vec![Frame {
            function: "foo".to_string(),
            frameno: 0,
            source_info: Some(SourceInfo { file: "a.rs".to_string(), lineno: 1, colno: 1 }),
        }],
        panic_info: None,
    };
    let mut filters = Filters::new(&vec![]);
    let contexts = vec![FrameContext { source_lines: Some(file_lines), canonical_path: None }];
    let out = bt.render(&no_links(), &mut filters, 80, &contexts);
    // rows 1..=3 only: no leading context exists
    assert_eq!(line_text(&out[4]), "     1 | l1");
    assert_eq!(line_text(&out[5]), "     2 | l2");
    assert_eq!(line_text(&out[6]), "     3 | l3");
    assert!(out[7].chunks.is_empty());
}

#[test]
fn unreadable_file_skips_the_snippet() {
    let bt = Backtrace {
        frames: vec![Frame {
            function: "foo".to_string(),
            frameno: 0,
            source_info: Some(SourceInfo { file: "missing.rs".to_string(), lineno: 3, colno: 5 }),
        }],
        panic_info: None,
    };
    let out = render_plain(&bt, &vec![], 80);
    // blank, band, frame, location, blank: no snippet rows
    assert_eq!(out.len(), 5);
}

#[test]
fn panic_info_renders_red_after_the_frames() {
    let bt = Backtrace {
        frames: vec![plain_frame("f", 0)],
        panic_info: Some(PanicInfo {
            thread: "main".to_string(),
            at: "src/main.rs:3:5:".to_string(),
            message: vec!["boom".to_string()],
        }),
    };
    let out = render_plain(&bt, &vec![], 80);
    // blank, band, frame, panic line, message line, blank
    assert_eq!(out.len(), 6);
    assert_eq!(out[3].chunks[0].style, Style::Red);
    assert_eq!(line_text(&out[3]), "thread 'main' panicked at src/main.rs:3:5:");
    assert_eq!(out[4].chunks[0].style, Style::Red);
    assert_eq!(line_text(&out[4]), "boom");
}

#[test]
fn hyperlink_wraps_location_when_enabled_and_resolved() {
    let bt = Backtrace {
        frames: vec![Frame {
            function: "foo".to_string(),
            frameno: 0,
            source_info: Some(SourceInfo { file: "src/main.rs".to_string(), lineno: 3, colno: 5 }),
        }],
        panic_info: None,
    };
    let links = HyperLinks { enabled: true, url: "file://${FILE_PATH}".to_string() };
    let mut filters = Filters::new(&vec![]);
    let contexts = vec![FrameContext {
        source_lines: None,
        canonical_path: Some("/abs/src/main.rs".to_string()),
    }];
    let out = bt.render(&links, &mut filters, 80, &contexts);
    assert_eq!(
        line_text(&out[3]),
        "   at \u{1b}]8;;file:///abs/src/main.rs\u{1b}\\src/main.rs:3:5\u{1b}]8;;\u{1b}\\"
    );
}

#[test]
fn unresolved_path_falls_back_to_plain_location() {
    let bt = Backtrace {
        frames: vec![Frame {
            function: "foo".to_string(),
            frameno: 0,
            source_info: Some(SourceInfo { file: "src/main.rs".to_string(), lineno: 3, colno: 5 }),
        }],
        panic_info: None,
    };
    let links = HyperLinks { enabled: true, url: "file://${FILE_PATH}".to_string() };
    let mut filters = Filters::new(&vec![]);
    let contexts = vec![FrameContext { source_lines: None, canonical_path: None }];
    let out = bt.render(&links, &mut filters, 80, &contexts);
    assert_eq!(line_text(&out[3]), "   at src/main.rs:3:5");
}

#[test]
fn link_render_builds_the_escape_sequence() {
    let link = Link::new("text".to_string(), "http://example".to_string());
    assert_eq!(link.render(), "\u{1b}]8;;http://example\u{1b}\\text\u{1b}]8;;\u{1b}\\");
}

#[test]
fn hyperlink_template_substitution() {
    let links = HyperLinks {
        enabled: true,
        url: "editor://open?file=${FILE_PATH}&line=${LINE}&col=${COLUMN}".to_string(),
    };
    assert_eq!(
        links.render("/a/b.rs", 12, 7),
        "editor://open?file=/a/b.rs&line=12&col=7"
    );
}

#[test]
fn hyperlink_substitution_replaces_every_occurrence_literally() {
    let links = HyperLinks { enabled: true, url: "${LINE}-${LINE}/${FILE_PATH}".to_string() };
    // no percent-encoding is performed: the path appears verbatim
    assert_eq!(links.render("/with space/x.rs", 3, 1), "3-3//with space/x.rs");
}
