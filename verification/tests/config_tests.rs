use backtracetk::Config;
use backtracetk::Hide;
use backtracetk::HyperLinks;
use backtracetk::Matcher;
use backtracetk::config::BacktraceStyle;
use backtracetk::config::Echo;
use backtracetk::config::PartialConfig;
use backtracetk::config::PartialHyperLinks;
use backtracetk::partial::Complete;
use backtracetk::partial::Partial;

fn empty_fragment() -> PartialConfig {
    PartialConfig {
        style: None,
        echo: None,
        hyperlinks: PartialHyperLinks { enabled: None, url: None },
        env: vec![],
        hide: vec![],
    }
}

#[test]
fn default_config_values() {
    let config = Config::default();
    assert!(matches!(config.style, BacktraceStyle::Short));
    assert!(matches!(config.echo, Echo::True));
    assert!(!config.hyperlinks.enabled);
    assert_eq!(config.hyperlinks.url, "file://${FILE_PATH}");
    assert!(config.env.is_empty());
    assert_eq!(config.hide.len(), 1);
    match &config.hide[0] {
        Hide::Span { begin, end } => {
            assert_eq!(begin.pattern_text(), "core::panicking::panic_explicit");
            assert!(end.is_none());
        }
        _ => panic!("expected the default span rule"),
    }
}

#[test]
fn completing_an_empty_fragment_gives_defaults() {
    let config = empty_fragment().into_complete();
    assert!(matches!(config.style, BacktraceStyle::Short));
    assert!(matches!(config.echo, Echo::True));
    assert!(!config.hyperlinks.enabled);
    assert_eq!(config.hyperlinks.url, "file://${FILE_PATH}");
    assert!(config.env.is_empty());
    assert!(config.hide.is_empty());
}

#[test]
fn merge_prefers_the_other_fragment() {
    let mut base = empty_fragment();
    base.style = Some(BacktraceStyle::Short);
    base.echo = Some(Echo::True);
    base.hyperlinks.url = Some("base://${FILE_PATH}".to_string());
    let mut over = empty_fragment();
    over.style = Some(BacktraceStyle::Full);
    over.hyperlinks.enabled = Some(true);
    let merged = base.merge_with(over);
    assert!(matches!(merged.style, Some(BacktraceStyle::Full)));
    // the other fragment is silent about echo: the base setting stays
    assert!(matches!(merged.echo, Some(Echo::True)));
    assert_eq!(merged.hyperlinks.enabled, Some(true));
    assert_eq!(merged.hyperlinks.url.as_deref(), Some("base://${FILE_PATH}"));
}

#[test]
fn merge_concatenates_env_and_hide() {
    let mut base = empty_fragment();
    base.env = vec![("A".to_string(), "1".to_string())];
    base.hide = vec![Hide::Pattern { pattern: Matcher::new("x").unwrap() }];
    let mut over = empty_fragment();
    over.env = vec![("B".to_string(), "2".to_string())];
    over.hide = vec![Hide::Pattern { pattern: Matcher::new("y").unwrap() }];
    let merged = base.merge_with(over);
    assert_eq!(
        merged.env,
        vec![("A".to_string(), "1".to_string()), ("B".to_string(), "2".to_string())]
    );
    assert_eq!(merged.hide.len(), 2);
    match (&merged.hide[0], &merged.hide[1]) {
        (Hide::Pattern { pattern: p0 }, Hide::Pattern { pattern: p1 }) => {
            assert_eq!(p0.pattern_text(), "x");
            assert_eq!(p1.pattern_text(), "y");
        }
        _ => panic!("expected the two pattern rules in order"),
    }
}

#[test]
fn complete_and_partial_round_trip() {
    let config = Config::default();
    let completed = config.into_partial().into_complete();
    assert!(matches!(completed.style, BacktraceStyle::Short));
    assert!(matches!(completed.echo, Echo::True));
    assert!(!completed.hyperlinks.enabled);
    assert_eq!(completed.hyperlinks.url, "file://${FILE_PATH}");
    assert_eq!(completed.hide.len(), 1);
}

#[test]
fn echo_converts_to_and_from_bool() {
    assert!(matches!(Echo::from(true), Echo::True));
    assert!(matches!(Echo::from(false), Echo::False));
    assert!(Echo::True.as_bool());
    assert!(!Echo::False.as_bool());
}

#[test]
fn style_env_var_values() {
    assert_eq!(BacktraceStyle::Short.env_var_str(), "1");
    assert_eq!(BacktraceStyle::Full.env_var_str(), "full");
}

#[test]
fn hyperlinks_default_is_disabled_file_url() {
    let links = HyperLinks::default();
    assert!(!links.enabled);
    assert_eq!(links.url, "file://${FILE_PATH}");
}

#[test]
fn option_merge_keeps_base_when_other_is_silent() {
    let base: Option<bool> = Some(true);
    assert_eq!(base.merge_with(None), Some(true));
    let base: Option<bool> = None;
    assert_eq!(base.merge_with(Some(false)), Some(false));
    let base: Option<bool> = None;
    assert_eq!(base.merge_with(None), None);
}

#[test]
fn scalar_fragments_carry_their_value() {
    assert_eq!(true.into_partial(), Some(true));
    assert_eq!("x".to_string().into_partial(), Some("x".to_string()));
    let v: Vec<u32> = vec![1, 2];
    assert_eq!(v.clone().into_partial(), v);
}
