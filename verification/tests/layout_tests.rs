use backtracetk::Backtrace;
use backtracetk::Frame;
use backtracetk::SourceInfo;

fn frame_numbered(n: u32) -> Frame {
    Frame { function: format!("f{n}"), frameno: n, source_info: None }
}

fn backtrace_with_frames(count: u32) -> Backtrace {
    Backtrace { frames: (0..count).map(frame_numbered).collect(), panic_info: None }
}

#[test]
fn frameno_width_counts_digits_of_highest_number() {
    // frames numbered 0..=99: the highest number has two digits
    assert_eq!(backtrace_with_frames(100).compute_frameno_width(), 2);
    // frames numbered 0..=9: one digit
    assert_eq!(backtrace_with_frames(10).compute_frameno_width(), 1);
    assert_eq!(backtrace_with_frames(11).compute_frameno_width(), 2);
}

#[test]
fn frameno_width_is_at_least_one() {
    assert_eq!(backtrace_with_frames(0).compute_frameno_width(), 1);
    assert_eq!(backtrace_with_frames(1).compute_frameno_width(), 1);
}

#[test]
fn lineno_width_counts_digits_of_max_line_plus_three() {
    let bt = Backtrace {
        frames: vec![
            Frame {
                function: "f".to_string(),
                frameno: 0,
                source_info: Some(SourceInfo { file: "a.rs".to_string(), lineno: 98, colno: 1 }),
            },
            Frame {
                function: "g".to_string(),
                frameno: 1,
                source_info: Some(SourceInfo { file: "b.rs".to_string(), lineno: 7, colno: 1 }),
            },
        ],
        panic_info: None,
    };
    // 98 + 3 = 101: three digits
    assert_eq!(bt.compute_lineno_width(), 3);
}

#[test]
fn lineno_width_without_sources_is_one() {
    assert_eq!(backtrace_with_frames(3).compute_lineno_width(), 1);
}

#[test]
fn source_info_width_formula() {
    let si = SourceInfo { file: "src/main.rs".to_string(), lineno: 30, colno: 5 };
    // fw + len("src/main.rs") + digits(30) + digits(5) + 9 = 2 + 11 + 2 + 1 + 9
    assert_eq!(si.width(2), 25);
}

#[test]
fn frame_width_is_max_of_header_and_source() {
    let f = Frame {
        function: "abc".to_string(),
        frameno: 0,
        source_info: Some(SourceInfo { file: "a.rs".to_string(), lineno: 1, colno: 1 }),
    };
    // header: 1 + 2 + 3 = 6; source: 1 + 4 + 1 + 1 + 9 = 16
    assert_eq!(f.width(1), 16);
    let g = Frame { function: "a_very_long_function_name".to_string(), frameno: 0, source_info: None };
    // header: 1 + 2 + 25 = 28
    assert_eq!(g.width(1), 28);
}

#[test]
fn total_width_capped_by_terminal() {
    let bt = Backtrace {
        frames: vec![Frame {
            function: "x".repeat(200),
            frameno: 0,
            source_info: None,
        }],
        panic_info: None,
    };
    // widest frame: 1 + 2 + 200 = 203, capped at the terminal's 120
    assert_eq!(bt.compute_width(1, 120), 120);
    // a wide terminal leaves the frame width
    assert_eq!(bt.compute_width(1, 500), 203);
}

#[test]
fn total_width_for_empty_backtrace_is_80_capped() {
    let bt = Backtrace { frames: vec![], panic_info: None };
    assert_eq!(bt.compute_width(1, 200), 80);
    assert_eq!(bt.compute_width(1, 60), 60);
}
