use backtracetk::Filters;
use backtracetk::Frame;
use backtracetk::FrameFilter;
use backtracetk::Hide;
use backtracetk::Matcher;

fn frame(function: &str) -> Frame {
    Frame { function: function.to_string(), frameno: 0, source_info: None }
}

fn decisions(rules: &Vec<Hide>, functions: &[&str]) -> Vec<bool> {
    let mut filters = Filters::new(rules);
    functions.iter().map(|f| filters.should_hide(&frame(f))).collect()
}

#[test]
fn matcher_compiles_and_matches() {
    let m = Matcher::new("^a.*z$").unwrap();
    assert!(m.is_match("abcz"));
    assert!(!m.is_match("abc"));
    assert_eq!(m.pattern_text(), "^a.*z$");
}

#[test]
fn matcher_rejects_invalid_pattern() {
    assert!(Matcher::new("(unclosed").is_err());
}

#[test]
fn pattern_rule_hides_matching_frames() {
    let rules = vec![Hide::Pattern { pattern: Matcher::new("^core::").unwrap() }];
    assert_eq!(
        decisions(&rules, &["core::fmt::write", "my_crate::run", "core::ptr::drop"]),
        vec![true, false, true]
    );
}

#[test]
fn span_rule_hides_both_boundaries() {
    let rules = vec![Hide::Span {
        begin: Matcher::new("^b$").unwrap(),
        end: Some(Matcher::new("^c$").unwrap()),
    }];
    assert_eq!(decisions(&rules, &["a", "b", "c", "d"]), vec![false, true, true, false]);
}

#[test]
fn open_span_hides_to_the_end() {
    let rules = vec![Hide::Span { begin: Matcher::new("^b$").unwrap(), end: None }];
    assert_eq!(
        decisions(&rules, &["a", "b", "x", "y", "z"]),
        vec![false, true, true, true, true]
    );
}

#[test]
fn span_state_resets_with_fresh_filters() {
    let rules = vec![Hide::Span { begin: Matcher::new("^b$").unwrap(), end: None }];
    // first backtrace enters the span
    assert_eq!(decisions(&rules, &["b", "x"]), vec![true, true]);
    // a fresh traversal starts outside the span again
    assert_eq!(decisions(&rules, &["a", "x"]), vec![false, false]);
}

#[test]
fn any_rule_hides_and_all_rules_advance() {
    let rules = vec![
        Hide::Pattern { pattern: Matcher::new("^noise$").unwrap() },
        Hide::Span {
            begin: Matcher::new("^begin$").unwrap(),
            end: Some(Matcher::new("^end$").unwrap()),
        },
    ];
    // `noise` is hidden by the pattern rule while the span rule is inside
    // its own run; the span still ends at `end`.
    assert_eq!(
        decisions(&rules, &["begin", "noise", "end", "after", "noise"]),
        vec![true, true, true, false, true]
    );
}

#[test]
fn span_reenters_after_leaving() {
    let rules = vec![Hide::Span {
        begin: Matcher::new("^b$").unwrap(),
        end: Some(Matcher::new("^e$").unwrap()),
    }];
    assert_eq!(
        decisions(&rules, &["b", "e", "x", "b", "y"]),
        vec![true, true, false, true, true]
    );
}

#[test]
fn begin_and_end_on_same_frame_hide_only_it() {
    // the end pattern is not consulted on the frame where the span begins
    let rules = vec![Hide::Span {
        begin: Matcher::new("^b$").unwrap(),
        end: Some(Matcher::new("^b$").unwrap()),
    }];
    assert_eq!(decisions(&rules, &["b", "b", "x"]), vec![true, true, false]);
}

#[test]
fn no_rules_hide_nothing() {
    let rules: Vec<Hide> = vec![];
    assert_eq!(decisions(&rules, &["a", "b"]), vec![false, false]);
}

#[test]
fn rule_from_parts_builds_pattern_and_span() {
    match Hide::from_parts(Some("^x$".to_string()), None, None).unwrap() {
        Hide::Pattern { pattern } => assert_eq!(pattern.pattern_text(), "^x$"),
        _ => panic!("expected a pattern rule"),
    }
    match Hide::from_parts(None, Some("^b$".to_string()), Some("^e$".to_string())).unwrap() {
        Hide::Span { begin, end } => {
            assert_eq!(begin.pattern_text(), "^b$");
            assert_eq!(end.unwrap().pattern_text(), "^e$");
        }
        _ => panic!("expected a span rule"),
    }
}

#[test]
fn rule_from_parts_rejects_conflicts_and_absences() {
    let err = Hide::from_parts(Some("a".to_string()), Some("b".to_string()), None).unwrap_err();
    assert!(err.contains("cannot use `pattern` and `begin` together"));
    let err = Hide::from_parts(None, None, None).unwrap_err();
    assert!(err.contains("missing field `pattern` or `begin`"));
    assert!(Hide::from_parts(Some("(".to_string()), None, None).is_err());
    assert!(Hide::from_parts(None, Some("(".to_string()), None).is_err());
    assert!(Hide::from_parts(None, Some("b".to_string()), Some("(".to_string())).is_err());
}
