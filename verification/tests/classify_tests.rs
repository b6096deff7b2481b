use backtracetk::ClassifyError;
use backtracetk::ParsedLine;
use backtracetk::classify::classify;

#[test]
fn other_lines_kept_verbatim() {
    for line in [
        "",
        "plain output",
        "error: something went wrong",
        "  indented but not a frame",
        "thread panicked",
        "thread 'main' panicked",
        "stack backtrace",
        "stack backtrace: extra",
        "   at no-colons-here",
        "  12 missing colon",
        "über längliche Zeile",
    ] {
        match classify(line) {
            Ok(ParsedLine::Other(text)) => assert_eq!(text, line),
            _ => panic!("expected Other for {line:?}"),
        }
    }
}

#[test]
fn backtrace_start_matches_ignoring_case() {
    for line in ["stack backtrace:", "STACK BACKTRACE:", "Stack Backtrace:", "sTaCk BaCkTrAcE:"] {
        match classify(line) {
            Ok(ParsedLine::BacktraceStart) => {}
            _ => panic!("expected BacktraceStart for {line:?}"),
        }
    }
}

#[test]
fn panic_line_captures_thread_and_location() {
    let line = "thread 'main' panicked at src/main.rs:3:5:";
    match classify(line) {
        Ok(ParsedLine::ThreadPanic { thread, at }) => {
            assert_eq!(thread, "main");
            assert_eq!(at, "src/main.rs:3:5:");
        }
        _ => panic!("expected ThreadPanic"),
    }
}

#[test]
fn panic_line_with_spaced_name_and_free_form_location() {
    let line = "thread 'worker thread 7' panicked at some free form text";
    match classify(line) {
        Ok(ParsedLine::ThreadPanic { thread, at }) => {
            assert_eq!(thread, "worker thread 7");
            assert_eq!(at, "some free form text");
        }
        _ => panic!("expected ThreadPanic"),
    }
}

#[test]
fn panic_line_requires_nonempty_thread() {
    match classify("thread '' panicked at x") {
        Ok(ParsedLine::Other(_)) => {}
        _ => panic!("expected Other for an empty thread name"),
    }
}

#[test]
fn frame_header_captures_number_and_function() {
    let line = "   0: foo::bar";
    match classify(line) {
        Ok(ParsedLine::BacktraceHeader { function, frameno }) => {
            assert_eq!(function, "foo::bar");
            assert_eq!(frameno, 0);
        }
        _ => panic!("expected BacktraceHeader"),
    }
}

#[test]
fn frame_header_strips_module_qualifier() {
    let line = "  28: mymodule - rustc_middle::ty::context::tls::enter_context";
    match classify(line) {
        Ok(ParsedLine::BacktraceHeader { function, frameno }) => {
            assert_eq!(function, "rustc_middle::ty::context::tls::enter_context");
            assert_eq!(frameno, 28);
        }
        _ => panic!("expected BacktraceHeader"),
    }
}

#[test]
fn frame_header_keeps_function_with_interior_dash() {
    // `foo.bar` is no module qualifier (the dot is not a word character),
    // so the whole text is the function name.
    let line = "  3: foo.bar - baz";
    match classify(line) {
        Ok(ParsedLine::BacktraceHeader { function, frameno }) => {
            assert_eq!(function, "foo.bar - baz");
            assert_eq!(frameno, 3);
        }
        _ => panic!("expected BacktraceHeader"),
    }
}

#[test]
fn frame_header_needs_leading_whitespace() {
    match classify("0: foo") {
        Ok(ParsedLine::Other(text)) => assert_eq!(text, "0: foo"),
        _ => panic!("expected Other without leading whitespace"),
    }
}

#[test]
fn frame_number_too_large_is_an_error() {
    let line = "  99999999999999999999: foo";
    assert_eq!(classify(line).unwrap_err(), ClassifyError::FrameNumberTooLarge);
}

#[test]
fn source_line_captures_file_line_column() {
    let line = "             at /rustc/b3aa8e7168a3/compiler/rustc_middle/src/ty/tls.rs:79:9";
    match classify(line) {
        Ok(ParsedLine::BacktraceSource(si)) => {
            assert_eq!(si.file, "/rustc/b3aa8e7168a3/compiler/rustc_middle/src/ty/tls.rs");
            assert_eq!(si.lineno, 79);
            assert_eq!(si.colno, 9);
        }
        _ => panic!("expected BacktraceSource"),
    }
}

#[test]
fn source_line_ignores_text_after_the_column() {
    let line = "   at src/main.rs:3:5:";
    match classify(line) {
        Ok(ParsedLine::BacktraceSource(si)) => {
            assert_eq!(si.file, "src/main.rs");
            assert_eq!(si.lineno, 3);
            assert_eq!(si.colno, 5);
        }
        _ => panic!("expected BacktraceSource"),
    }
}

#[test]
fn source_line_with_non_numeric_line_is_other() {
    match classify("   at a:b:1:2") {
        Ok(ParsedLine::Other(_)) => {}
        _ => panic!("expected Other when the line part is not numeric"),
    }
}

#[test]
fn source_line_number_too_large_is_an_error() {
    let line = "   at f.rs:99999999999999999999999:1";
    assert_eq!(classify(line).unwrap_err(), ClassifyError::LineNumberTooLarge);
}

#[test]
fn source_column_too_large_is_an_error() {
    let line = "   at f.rs:1:99999999999999999999999";
    assert_eq!(classify(line).unwrap_err(), ClassifyError::ColumnNumberTooLarge);
}

#[test]
fn frame_header_wins_over_source_pattern() {
    // leading whitespace, digits, colon: a frame header, even though an
    // `at` follows further on.
    let line = "  5: at src/main.rs:1:2";
    match classify(line) {
        Ok(ParsedLine::BacktraceHeader { function, frameno }) => {
            assert_eq!(function, "at src/main.rs:1:2");
            assert_eq!(frameno, 5);
        }
        _ => panic!("expected BacktraceHeader"),
    }
}
