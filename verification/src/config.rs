//! The settings the engine works from: backtrace style, output echoing,
//! hyperlink rendering, extra environment variables, and the hide rules.
//! Settings arrive as fragments (see `crate::partial`) that are merged
//! and completed with the defaults given here.
use vstd::prelude::*;

use crate::filter::Hide;
use crate::filter::RuleV;
use crate::matcher::Matcher;
use crate::partial::Complete;
use crate::partial::Partial;
use crate::text::chars_of;
use crate::text::chars_to_string;
use crate::text::dec_str;
use crate::text::push_dec_u64;
use crate::text::replace_all;
use crate::text::replace_all_chars;

verus! {

/// Whether captured lines are echoed as they are read.
#[derive(Clone, Copy, Debug, PartialEq, Eq, Structural)]
pub enum Echo {
    True,
    False,
}

impl Echo {
    /// The boolean this setting stands for.
    pub fn as_bool(&self) -> (r: bool)
        ensures
            r == (self is True),
    {
        match self {
            Echo::True => true,
            Echo::False => false,
        }
    }
}

impl From<bool> for Echo {
    fn from(b: bool) -> (r: Echo) {
        if b {
            Echo::True
        } else {
            Echo::False
        }
    }
}

impl vstd::std_specs::convert::FromSpecImpl<bool> for Echo {
    open spec fn obeys_from_spec() -> bool {
        true
    }

    open spec fn from_spec(b: bool) -> Echo {
        if b {
            Echo::True
        } else {
            Echo::False
        }
    }
}

impl Default for Echo {
    fn default() -> (r: Echo)
        ensures
            r is True,
    {
        Echo::True
    }
}

/// How much backtrace the watched process is asked to produce.
#[derive(Clone, Copy, Debug, PartialEq, Eq, Structural)]
pub enum BacktraceStyle {
    Short,
    Full,
}

impl BacktraceStyle {
    /// The value the backtrace environment variable is set to for this
    /// style.
    pub fn env_var_str(&self) -> (r: &'static str)
        ensures
            self is Short ==> r@ == "1"@,
            self is Full ==> r@ == "full"@,
    {
        match self {
            BacktraceStyle::Short => "1",
            BacktraceStyle::Full => "full",
        }
    }
}

impl Default for BacktraceStyle {
    fn default() -> (r: BacktraceStyle)
        ensures
            r is Short,
    {
        BacktraceStyle::Short
    }
}

/// The hyperlink URL built from the template: each placeholder occurrence
/// replaced in turn by the line, the column, and the file path, by
/// literal substitution without any escaping.
pub open spec fn hyperlink_url(url: Seq<char>, file: Seq<char>, line: int, col: int) -> Seq<
    char,
> {
    replace_all(
        replace_all(replace_all(url, "${LINE}"@, dec_str(line)), "${COLUMN}"@, dec_str(col)),
        "${FILE_PATH}"@,
        file,
    )
}

/// Whether source locations are rendered as clickable terminal
/// hyperlinks, and the URL template used for them.
pub struct HyperLinks {
    pub enabled: bool,
    pub url: String,
}

/// Mathematical model of the hyperlink settings.
pub ghost struct HyperLinksV {
    pub enabled: bool,
    pub url: Seq<char>,
}

impl View for HyperLinks {
    type V = HyperLinksV;

    open spec fn view(&self) -> HyperLinksV {
        HyperLinksV { enabled: self.enabled, url: self.url@ }
    }
}

impl HyperLinks {
    /// The URL for one source position: the template with `${LINE}`,
    /// `${COLUMN}` and `${FILE_PATH}` substituted, in that order.
    pub fn render(&self, file: &str, line: usize, col: usize) -> (r: String)
        ensures
            r@ == hyperlink_url(self.url@, file@, line as int, col as int),
    {
        let url = chars_of(self.url.as_str());
        let pat_line = chars_of("${LINE}");
        let mut line_text: Vec<char> = Vec::new();
        push_dec_u64(&mut line_text, line as u64);
        let step1 = replace_all_chars(&url, &pat_line, &line_text);
        let pat_col = chars_of("${COLUMN}");
        let mut col_text: Vec<char> = Vec::new();
        push_dec_u64(&mut col_text, col as u64);
        let step2 = replace_all_chars(&step1, &pat_col, &col_text);
        let pat_file = chars_of("${FILE_PATH}");
        let file_text = chars_of(file);
        let step3 = replace_all_chars(&step2, &pat_file, &file_text);
        chars_to_string(&step3)
    }
}

impl Default for HyperLinks {
    fn default() -> (r: HyperLinks)
        ensures
            !r.enabled,
            r.url@ == "file://${FILE_PATH}"@,
    {
        HyperLinks { enabled: false, url: "file://${FILE_PATH}".to_owned() }
    }
}

/// The complete settings the engine works from.
pub struct Config {
    pub style: BacktraceStyle,
    pub echo: Echo,
    pub hyperlinks: HyperLinks,
    pub env: Vec<(String, String)>,
    pub hide: Vec<Hide>,
}

/// The default hide rules: one open span that starts where the standard
/// library's explicit-panic plumbing begins, or none at all in the
/// unexpected case that its pattern does not compile.
pub open spec fn default_hide_rules(rules: Seq<RuleV>) -> bool {
    &&& rules.len() <= 1
    &&& rules.len() == 1 ==> rules[0] == (RuleV::Span {
        begin: "core::panicking::panic_explicit"@,
        end: None,
    })
}

impl Default for Config {
    fn default() -> (r: Config)
        ensures
            r.style is Short,
            r.echo is True,
            !r.hyperlinks.enabled,
            r.hyperlinks.url@ == "file://${FILE_PATH}"@,
            r.env@.len() == 0,
            default_hide_rules(r.hide.deep_view()),
    {
        let mut hide_rules: Vec<Hide> = Vec::new();
        match Matcher::new("core::panicking::panic_explicit") {
            Ok(begin) => {
                let rule = Hide::Span { begin, end: None };
                let ghost rv = rule@;
                hide_rules.push(rule);
                proof {
                    assert(hide_rules.deep_view() =~= Seq::<RuleV>::empty().push(rv));
                }
            },
            Err(_) => {},
        }
        Config {
            style: BacktraceStyle::Short,
            echo: Echo::True,
            hyperlinks: HyperLinks::default(),
            env: Vec::new(),
            hide: hide_rules,
        }
    }
}

/// A fragment of the hyperlink settings.
pub struct PartialHyperLinks {
    pub enabled: Option<bool>,
    pub url: Option<String>,
}

impl Partial for PartialHyperLinks {
    type Complete = HyperLinks;

    /// Fieldwise merge; the other fragment's settings win.
    fn merge_with(self, other: Self) -> (r: Self)
        ensures
            r.enabled == (if other.enabled is Some {
                other.enabled
            } else {
                self.enabled
            }),
            r.url == (if other.url is Some {
                other.url
            } else {
                self.url
            }),
    {
        PartialHyperLinks {
            enabled: self.enabled.merge_with(other.enabled),
            url: self.url.merge_with(other.url),
        }
    }

    /// Absent settings fall back to the defaults: links disabled, a
    /// plain file URL template.
    fn into_complete(self) -> (r: HyperLinks)
        ensures
            self.enabled is Some ==> r.enabled == self.enabled->Some_0,
            self.enabled is None ==> !r.enabled,
            self.url is Some ==> r.url == self.url->Some_0,
            self.url is None ==> r.url@ == "file://${FILE_PATH}"@,
    {
        let enabled = match self.enabled {
            Some(e) => e,
            None => false,
        };
        let url = match self.url {
            Some(u) => u,
            None => "file://${FILE_PATH}".to_owned(),
        };
        HyperLinks { enabled, url }
    }
}

impl Complete for HyperLinks {
    type Partial = PartialHyperLinks;

    fn into_partial(self) -> (r: PartialHyperLinks)
        ensures
            r.enabled == Some(self.enabled),
            r.url == Some(self.url),
    {
        PartialHyperLinks { enabled: Some(self.enabled), url: Some(self.url) }
    }
}

impl Complete for BacktraceStyle {
    type Partial = Option<BacktraceStyle>;

    fn into_partial(self) -> (r: Option<BacktraceStyle>)
        ensures
            r == Some(self),
    {
        Some(self)
    }
}

impl Complete for Echo {
    type Partial = Option<Echo>;

    fn into_partial(self) -> (r: Option<Echo>)
        ensures
            r == Some(self),
    {
        Some(self)
    }
}

/// A fragment of the complete settings, as one configuration source
/// provides it.
pub struct PartialConfig {
    pub style: Option<BacktraceStyle>,
    pub echo: Option<Echo>,
    pub hyperlinks: PartialHyperLinks,
    pub env: Vec<(String, String)>,
    pub hide: Vec<Hide>,
}

impl Partial for PartialConfig {
    type Complete = Config;

    /// Fieldwise merge: scalar settings of the other fragment win, and
    /// its list settings follow this fragment's.
    fn merge_with(self, other: Self) -> (r: Self)
        ensures
            r.style == (if other.style is Some {
                other.style
            } else {
                self.style
            }),
            r.echo == (if other.echo is Some {
                other.echo
            } else {
                self.echo
            }),
            r.hyperlinks.enabled == (if other.hyperlinks.enabled is Some {
                other.hyperlinks.enabled
            } else {
                self.hyperlinks.enabled
            }),
            r.hyperlinks.url == (if other.hyperlinks.url is Some {
                other.hyperlinks.url
            } else {
                self.hyperlinks.url
            }),
            r.env@ == self.env@ + other.env@,
            r.hide@ == self.hide@ + other.hide@,
    {
        PartialConfig {
            style: self.style.merge_with(other.style),
            echo: self.echo.merge_with(other.echo),
            hyperlinks: self.hyperlinks.merge_with(other.hyperlinks),
            env: self.env.merge_with(other.env),
            hide: self.hide.merge_with(other.hide),
        }
    }

    /// Absent settings fall back to their defaults; the default hide
    /// rules apply only when the fragment names none at all.
    fn into_complete(self) -> (r: Config)
        ensures
            self.style is Some ==> r.style == self.style->Some_0,
            self.style is None ==> r.style is Short,
            self.echo is Some ==> r.echo == self.echo->Some_0,
            self.echo is None ==> r.echo is True,
            self.hyperlinks.enabled is Some ==> r.hyperlinks.enabled
                == self.hyperlinks.enabled->Some_0,
            self.hyperlinks.enabled is None ==> !r.hyperlinks.enabled,
            self.hyperlinks.url is Some ==> r.hyperlinks.url == self.hyperlinks.url->Some_0,
            self.hyperlinks.url is None ==> r.hyperlinks.url@ == "file://${FILE_PATH}"@,
            r.env@ == self.env@,
            r.hide@ == self.hide@,
    {
        let style = match self.style {
            Some(s) => s,
            None => BacktraceStyle::Short,
        };
        let echo = match self.echo {
            Some(e) => e,
            None => Echo::True,
        };
        Config {
            style,
            echo,
            hyperlinks: self.hyperlinks.into_complete(),
            env: self.env,
            hide: self.hide,
        }
    }
}

impl Complete for Config {
    type Partial = PartialConfig;

    fn into_partial(self) -> (r: PartialConfig)
        ensures
            r.style == Some(self.style),
            r.echo == Some(self.echo),
            r.hyperlinks.enabled == Some(self.hyperlinks.enabled),
            r.hyperlinks.url == Some(self.hyperlinks.url),
            r.env == self.env,
            r.hide == self.hide,
    {
        PartialConfig {
            style: Some(self.style),
            echo: Some(self.echo),
            hyperlinks: self.hyperlinks.into_partial(),
            env: self.env,
            hide: self.hide,
        }
    }
}

} // verus!
