use backtracetk::Parser;

fn parse_all(lines: &[&str]) -> Vec<backtracetk::Backtrace> {
    let mut parser = Parser::new();
    for line in lines {
        parser.parse_line(line.to_string()).unwrap();
    }
    parser.into_backtraces()
}

#[test]
fn round_trip_single_backtrace() {
    let backtraces = parse_all(&[
        "thread 'main' panicked at src/main.rs:3:5:",
        "stack backtrace:",
        "   0: foo::bar",
        "             at src/main.rs:3:5",
        "   1: main",
    ]);
    assert_eq!(backtraces.len(), 1);
    let bt = &backtraces[0];
    assert_eq!(bt.frames.len(), 2);
    assert_eq!(bt.frames[0].function, "foo::bar");
    assert_eq!(bt.frames[0].frameno, 0);
    let si = bt.frames[0].source_info.as_ref().unwrap();
    assert_eq!(si.file, "src/main.rs");
    assert_eq!(si.lineno, 3);
    assert_eq!(si.colno, 5);
    assert_eq!(bt.frames[1].function, "main");
    assert_eq!(bt.frames[1].frameno, 1);
    assert!(bt.frames[1].source_info.is_none());
    let pi = bt.panic_info.as_ref().unwrap();
    assert_eq!(pi.thread, "main");
    assert_eq!(pi.at, "src/main.rs:3:5:");
    assert!(pi.message.is_empty());
}

#[test]
fn consecutive_start_markers_merge() {
    let backtraces = parse_all(&["stack backtrace:", "stack backtrace:", "   0: f"]);
    assert_eq!(backtraces.len(), 1);
    assert_eq!(backtraces[0].frames.len(), 1);
    assert_eq!(backtraces[0].frames[0].function, "f");
}

#[test]
fn lookahead_consumes_source_line() {
    let backtraces = parse_all(&["   3: foo", "             at a.rs:10:5"]);
    assert_eq!(backtraces.len(), 1);
    assert_eq!(backtraces[0].frames.len(), 1);
    let frame = &backtraces[0].frames[0];
    assert_eq!(frame.function, "foo");
    assert_eq!(frame.frameno, 3);
    let si = frame.source_info.as_ref().unwrap();
    assert_eq!(si.file, "a.rs");
    assert_eq!(si.lineno, 10);
    assert_eq!(si.colno, 5);
}

#[test]
fn emitted_backtraces_have_frames() {
    let backtraces = parse_all(&[
        "noise",
        "stack backtrace:",
        "more noise",
        "stack backtrace:",
        "   0: a",
        "stack backtrace:",
        "   0: b",
        "   1: c",
        "stack backtrace:",
    ]);
    for bt in &backtraces {
        assert!(!bt.frames.is_empty());
    }
    assert_eq!(backtraces.len(), 2);
    assert_eq!(backtraces[0].frames.len(), 1);
    assert_eq!(backtraces[1].frames.len(), 2);
}

#[test]
fn panic_without_frames_is_dropped() {
    // A panic report never followed by a frame yields no backtrace at
    // all: a documented quirk, kept as observed.
    let backtraces = parse_all(&[
        "thread 'main' panicked at src/lib.rs:1:1:",
        "the panic message",
    ]);
    assert!(backtraces.is_empty());
}

#[test]
fn panic_message_lines_collect_until_boundary() {
    let backtraces = parse_all(&[
        "thread 'main' panicked at src/lib.rs:1:1:",
        "first message line",
        "second message line",
        "stack backtrace:",
        "ignored: not attributed after the boundary",
        "   0: f",
    ]);
    assert_eq!(backtraces.len(), 1);
    let pi = backtraces[0].panic_info.as_ref().unwrap();
    assert_eq!(pi.message, vec!["first message line", "second message line"]);
}

#[test]
fn later_panic_overwrites_unflushed_panic() {
    let backtraces = parse_all(&[
        "thread 'one' panicked at a:",
        "thread 'two' panicked at b:",
        "stack backtrace:",
        "   0: f",
    ]);
    assert_eq!(backtraces.len(), 1);
    assert_eq!(backtraces[0].panic_info.as_ref().unwrap().thread, "two");
}

#[test]
fn panic_info_carries_onto_following_frames() {
    let backtraces = parse_all(&[
        "thread 'main' panicked at here:",
        "   0: f",
        "   1: g",
    ]);
    assert_eq!(backtraces.len(), 1);
    assert_eq!(backtraces[0].frames.len(), 2);
    assert_eq!(backtraces[0].panic_info.as_ref().unwrap().thread, "main");
}

#[test]
fn stray_source_line_is_dropped() {
    let backtraces = parse_all(&[
        "             at a.rs:1:2",
        "   0: f",
    ]);
    assert_eq!(backtraces.len(), 1);
    assert_eq!(backtraces[0].frames.len(), 1);
    assert!(backtraces[0].frames[0].source_info.is_none());
}

#[test]
fn two_backtraces_from_one_stream() {
    let backtraces = parse_all(&[
        "stack backtrace:",
        "   0: first",
        "stack backtrace:",
        "   0: second",
    ]);
    assert_eq!(backtraces.len(), 2);
    assert_eq!(backtraces[0].frames[0].function, "first");
    assert_eq!(backtraces[1].frames[0].function, "second");
}

#[test]
fn empty_input_yields_nothing() {
    assert!(parse_all(&[]).is_empty());
}

#[test]
fn parse_error_leaves_parser_unchanged() {
    let mut parser = Parser::new();
    parser.parse_line("   0: f".to_string()).unwrap();
    assert!(parser.parse_line("  99999999999999999999: g".to_string()).is_err());
    let backtraces = parser.into_backtraces();
    assert_eq!(backtraces.len(), 1);
    assert_eq!(backtraces[0].frames.len(), 1);
}
