//! The frame filter: given a set of hide rules, decides frame by frame,
//! in display order, whether to hide it. Pattern rules are stateless;
//! span rules carry one boolean of traversal state each, reset for every
//! backtrace by building fresh `Filters`.
use vstd::prelude::*;

use crate::matcher::regex_match;
use crate::matcher::Matcher;
use crate::Frame;
use crate::FrameFilter;

verus! {

/// A frame-hiding rule.
#[derive(Debug)]
pub enum Hide {
    /// Hides every frame whose function name matches the pattern.
    Pattern { pattern: Matcher },
    /// Hides the contiguous run of frames from a `begin` match to an
    /// `end` match, both boundary frames included; with no `end` pattern
    /// the run extends to the end of the traversal.
    Span { begin: Matcher, end: Option<Matcher> },
}

/// Mathematical model of a rule: the pattern texts.
pub ghost enum RuleV {
    Pattern { pattern: Seq<char> },
    Span { begin: Seq<char>, end: Option<Seq<char>> },
}

impl View for Hide {
    type V = RuleV;

    open spec fn view(&self) -> RuleV {
        match self {
            Hide::Pattern { pattern } => RuleV::Pattern { pattern: pattern@ },
            Hide::Span { begin, end } => RuleV::Span {
                begin: begin@,
                end: match end {
                    Some(e) => Some(e@),
                    None => None,
                },
            },
        }
    }
}

impl DeepView for Hide {
    type V = RuleV;

    open spec fn deep_view(&self) -> RuleV {
        self.view()
    }
}

impl Hide {
    /// Builds one hide rule from the fields a configuration entry may
    /// carry: a `pattern` makes a pattern rule, a `begin` with an
    /// optional `end` makes a span rule, the two are exclusive, and one
    /// of them is required. Errors are the message texts reported to the
    /// user: the field conflicts here, or what the regex engine said of a
    /// pattern that did not compile.
    pub fn from_parts(pattern: Option<String>, begin: Option<String>, end: Option<String>) -> (r:
        Result<Hide, String>)
        ensures
            pattern is Some && begin is Some ==> r is Err,
            pattern is None && begin is None ==> r is Err,
            r is Ok && pattern is Some ==> r->Ok_0@ == (RuleV::Pattern {
                pattern: pattern->Some_0@,
            }),
            r is Ok && begin is Some ==> r->Ok_0@ == (RuleV::Span {
                begin: begin->Some_0@,
                end: match end {
                    Some(e) => Some(e@),
                    None => None,
                },
            }),
    {
        match (pattern, begin) {
            (Some(_), Some(_)) => Err("cannot use `pattern` and `begin` together".to_owned()),
            (Some(p), None) => {
                let compiled = Matcher::new(p.as_str())?;
                Ok(Hide::Pattern { pattern: compiled })
            },
            (None, Some(b)) => {
                let compiled_begin = Matcher::new(b.as_str())?;
                let compiled_end = match end {
                    Some(e) => Some(Matcher::new(e.as_str())?),
                    None => None,
                };
                Ok(Hide::Span { begin: compiled_begin, end: compiled_end })
            },
            (None, None) => Err("missing field `pattern` or `begin`".to_owned()),
        }
    }
}

/// One rule together with its traversal state.
enum Filter {
    Pattern { pattern: Matcher },
    Span { begin: Matcher, end: Option<Matcher>, inside: bool },
}

/// Mathematical model of one rule with its state. A pattern rule's state
/// never changes and is modeled as `false`.
pub ghost struct FilterV {
    pub rule: RuleV,
    pub inside: bool,
}

impl View for Filter {
    type V = FilterV;

    closed spec fn view(&self) -> FilterV {
        match self {
            Filter::Pattern { pattern } => FilterV {
                rule: RuleV::Pattern { pattern: pattern@ },
                inside: false,
            },
            Filter::Span { begin, end, inside } => FilterV {
                rule: RuleV::Span {
                    begin: begin@,
                    end: match end {
                        Some(e) => Some(e@),
                        None => None,
                    },
                },
                inside: *inside,
            },
        }
    }
}

impl DeepView for Filter {
    type V = FilterV;

    open spec fn deep_view(&self) -> FilterV {
        self.view()
    }
}

/// Whether one rule, in state `f`, hides a frame whose function name is
/// `function`. A pattern rule hides on a match; a span rule hides while
/// inside the span and on the frame where `begin` matches.
pub open spec fn rule_hides(f: FilterV, function: Seq<char>) -> bool {
    match f.rule {
        RuleV::Pattern { pattern } => regex_match(pattern, function),
        RuleV::Span { begin, end } => f.inside || regex_match(begin, function),
    }
}

/// The state of one rule after deciding that frame. Inside a span with an
/// `end` pattern, a match of `end` leaves the span after the current
/// frame; with no `end` pattern the span never ends. Outside a span, a
/// `begin` match enters it.
pub open spec fn rule_step(f: FilterV, function: Seq<char>) -> FilterV {
    match f.rule {
        RuleV::Pattern { pattern } => f,
        RuleV::Span { begin, end } => FilterV {
            rule: f.rule,
            inside: if f.inside {
                match end {
                    Some(e) => !regex_match(e, function),
                    None => true,
                }
            } else {
                regex_match(begin, function)
            },
        },
    }
}

/// A frame is hidden overall exactly when some rule hides it.
pub open spec fn filters_hide(fs: Seq<FilterV>, function: Seq<char>) -> bool {
    exists|k: int| 0 <= k < fs.len() && rule_hides(fs[k], function)
}

/// Every rule sees every frame: all states advance together.
pub open spec fn filters_step(fs: Seq<FilterV>, function: Seq<char>) -> Seq<FilterV> {
    fs.map_values(|f: FilterV| rule_step(f, function))
}

/// The hide decisions over a traversal of function names, in order,
/// threading the rule states through.
pub open spec fn span_decisions(fs: Seq<FilterV>, functions: Seq<Seq<char>>) -> Seq<bool>
    decreases functions.len(),
{
    if functions.len() == 0 {
        Seq::empty()
    } else {
        seq![filters_hide(fs, functions[0])] + span_decisions(
            filters_step(fs, functions[0]),
            functions.drop_first(),
        )
    }
}

/// The rule states after a whole traversal of function names.
pub open spec fn filters_after(fs: Seq<FilterV>, functions: Seq<Seq<char>>) -> Seq<FilterV>
    decreases functions.len(),
{
    if functions.len() == 0 {
        fs
    } else {
        filters_after(filters_step(fs, functions[0]), functions.drop_first())
    }
}

/// Fresh filter states for a rule set: every span starts outside.
pub open spec fn fresh_filters(rules: Seq<RuleV>) -> Seq<FilterV> {
    rules.map_values(|r: RuleV| FilterV { rule: r, inside: false })
}

/// The filters for one rendering pass: the rules with their traversal
/// state, reset by constructing them anew for each backtrace.
pub struct Filters {
    filters: Vec<Filter>,
}

impl View for Filters {
    type V = Seq<FilterV>;

    closed spec fn view(&self) -> Seq<FilterV> {
        self.filters.deep_view()
    }
}

impl Filters {
    /// Fresh filters for the given rules: every span starts outside its
    /// span.
    pub fn new(rules: &Vec<Hide>) -> (r: Filters)
        ensures
            r@ == fresh_filters(rules.deep_view()),
    {
        let mut filters: Vec<Filter> = Vec::new();
        let n = rules.len();
        let mut k: usize = 0;
        while k < n
            invariant
                k <= n,
                n == rules@.len(),
                filters.deep_view() =~= fresh_filters(rules.deep_view().subrange(0, k as int)),
            decreases n - k,
        {
            let f = match &rules[k] {
                Hide::Pattern { pattern } => {
                    let nf = Filter::Pattern { pattern: pattern.clone() };
                    proof {
                        assert(nf@ == FilterV { rule: rules@[k as int]@, inside: false });
                    }
                    nf
                },
                Hide::Span { begin, end } => {
                    let nf = Filter::Span {
                        begin: begin.clone(),
                        end: match end {
                            Some(e) => Some(e.clone()),
                            None => None,
                        },
                        inside: false,
                    };
                    proof {
                        assert(nf@ == FilterV { rule: rules@[k as int]@, inside: false });
                    }
                    nf
                },
            };
            let ghost fv = f@;
            let ghost old_deep = filters.deep_view();
            filters.push(f);
            k = k + 1;
            proof {
                assert(filters.deep_view() =~= old_deep.push(fv));
                assert(rules.deep_view()[k - 1] == rules@[k - 1].deep_view());
                assert(fv == FilterV { rule: rules.deep_view()[k - 1], inside: false });
                assert(filters.deep_view() =~= fresh_filters(
                    rules.deep_view().subrange(0, k as int),
                ));
            }
        }
        proof {
            assert(rules.deep_view().subrange(0, n as int) =~= rules.deep_view());
        }
        Filters { filters }
    }
}

impl FrameFilter for Filters {
    /// Decides the next frame of the traversal: hidden exactly when some
    /// rule hides it, with every rule's span state advanced.
    fn should_hide(&mut self, frame: &Frame) -> (hidden: bool)
        ensures
            hidden == filters_hide(old(self)@, frame.function@),
            final(self)@ == filters_step(old(self)@, frame.function@),
    {
        let ghost fs0 = self@;
        let ghost function = frame.function@;
        let mut work: Vec<Filter> = Vec::new();
        core::mem::swap(&mut self.filters, &mut work);
        let mut rev: Vec<Filter> = Vec::new();
        let ghost w0 = work.deep_view();
        while work.len() > 0
            invariant
                work.deep_view() + rev.deep_view().reverse() =~= w0,
            decreases work.len(),
        {
            let ghost work_before = work.deep_view();
            let f = work.pop().unwrap();
            let ghost before = rev.deep_view();
            rev.push(f);
            proof {
                assert(work.deep_view() =~= work_before.drop_last());
                assert(rev.deep_view() =~= before.push(f@));
                assert(work.deep_view() + rev.deep_view().reverse() =~= w0);
            }
        }
        proof {
            assert(rev.deep_view().reverse() =~= w0);
        }
        let mut out: Vec<Filter> = Vec::new();
        let mut hidden = false;
        let n = rev.len();
        while rev.len() > 0
            invariant
                rev.deep_view().reverse() =~= w0.subrange(
                    out.deep_view().len() as int,
                    w0.len() as int,
                ),
                out.deep_view().len() + rev.deep_view().len() == w0.len(),
                out.deep_view() =~= filters_step(fs0, function).subrange(
                    0,
                    out.deep_view().len() as int,
                ),
                hidden == exists|t: int|
                    0 <= t < out.deep_view().len() && rule_hides(fs0[t], function),
                fs0 == w0,
                function == frame.function@,
            decreases rev.len(),
        {
            let ghost done = out.deep_view().len() as int;
            let ghost rev_before = rev.deep_view();
            proof {
                assert(rev_before.reverse()[0] == w0[done]);
                assert(rev_before.last() == rev_before.reverse()[0]);
            }
            let f = rev.pop().unwrap();
            let ghost fv = f@;
            proof {
                assert(rev.deep_view() =~= rev_before.drop_last());
                assert(fv == w0[done]);
            }
            let (h, stepped) = match f {
                Filter::Pattern { pattern } => {
                    let h = pattern.is_match(frame.function.as_str());
                    let nf = Filter::Pattern { pattern };
                    proof {
                        assert(fv == FilterV {
                            rule: RuleV::Pattern { pattern: pattern@ },
                            inside: false,
                        });
                        assert(h == rule_hides(fv, function));
                        assert(nf@ == rule_step(fv, function));
                    }
                    (h, nf)
                },
                Filter::Span { begin, end, inside } => {
                    if inside {
                        match end {
                            Some(e) => {
                                let m = e.is_match(frame.function.as_str());
                                let nf = Filter::Span { begin, end: Some(e), inside: !m };
                                proof {
                                    assert(rule_hides(fv, function));
                                    assert(nf@ == rule_step(fv, function));
                                }
                                (true, nf)
                            },
                            None => {
                                let nf = Filter::Span { begin, end: None, inside: true };
                                proof {
                                    assert(rule_hides(fv, function));
                                    assert(nf@ == rule_step(fv, function));
                                }
                                (true, nf)
                            },
                        }
                    } else {
                        let m = begin.is_match(frame.function.as_str());
                        let nf = Filter::Span { begin, end, inside: m };
                        proof {
                            assert(fv == FilterV {
                                rule: RuleV::Span {
                                    begin: begin@,
                                    end: match nf {
                                        Filter::Span { end: ref e, .. } => match e {
                                            Some(x) => Some(x@),
                                            None => None,
                                        },
                                        _ => None,
                                    },
                                },
                                inside: false,
                            });
                            assert(m == rule_hides(fv, function));
                            assert(nf@ == rule_step(fv, function));
                        }
                        (m, nf)
                    }
                },
            };
            let ghost out_before = out.deep_view();
            out.push(stepped);
            if h {
                hidden = true;
            }
            proof {
                assert(out.deep_view() =~= out_before.push(stepped@));
                assert(filters_step(fs0, function)[done] == rule_step(fs0[done], function));
                assert(out.deep_view() =~= filters_step(fs0, function).subrange(0, done + 1));
                let rd = rev.deep_view();
                assert forall|j: int| 0 <= j < rd.len() implies rd.reverse()[j] == w0[done + 1
                    + j] by {
                    assert(rd.reverse()[j] == rd[rd.len() - 1 - j]);
                    assert(rd[rd.len() - 1 - j] == rev_before[rd.len() - 1 - j]);
                    assert(rev_before.reverse()[j + 1] == w0.subrange(done, w0.len() as int)[j
                        + 1]);
                }
                assert(rev.deep_view().reverse() =~= w0.subrange(done + 1, w0.len() as int));
                if h {
                    assert(rule_hides(fs0[done], function));
                }
            }
        }
        proof {
            assert(out.deep_view() =~= filters_step(fs0, function));
            assert(hidden == filters_hide(fs0, function));
        }
        self.filters = out;
        hidden
    }
}

/// A span rule whose `begin` matches `b` and whose `end` matches `c`
/// hides, of the traversal `[a, b, c, d]`, exactly `b` and `c`: both
/// boundary frames of the span, and nothing outside it.
pub proof fn lemma_span_inclusive(
    pb: Seq<char>,
    pe: Seq<char>,
    a: Seq<char>,
    b: Seq<char>,
    c: Seq<char>,
    d: Seq<char>,
)
    requires
        !regex_match(pb, a),
        regex_match(pb, b),
        regex_match(pe, c),
        !regex_match(pb, d),
    ensures
        span_decisions(
            seq![FilterV { rule: RuleV::Span { begin: pb, end: Some(pe) }, inside: false }],
            seq![a, b, c, d],
        ) == seq![false, true, true, false],
{
    reveal_with_fuel(span_decisions, 6);
    let fs0 = seq![FilterV { rule: RuleV::Span { begin: pb, end: Some(pe) }, inside: false }];
    let fns = seq![a, b, c, d];
    assert(fns[0] == a);
    let fs1 = filters_step(fs0, a);
    assert(fs1 =~= fs0);
    assert(!filters_hide(fs0, a)) by {
        assert(forall|k: int| 0 <= k < fs0.len() ==> !rule_hides(#[trigger] fs0[k], a));
    }
    let fs2 = filters_step(fs1, b);
    assert(fs2 =~= seq![
        FilterV { rule: RuleV::Span { begin: pb, end: Some(pe) }, inside: true },
    ]);
    assert(filters_hide(fs1, b)) by {
        assert(rule_hides(fs1[0], b));
    }
    let fs3 = filters_step(fs2, c);
    assert(fs3 =~= fs0);
    assert(filters_hide(fs2, c)) by {
        assert(rule_hides(fs2[0], c));
    }
    assert(!filters_hide(fs3, d)) by {
        assert(forall|k: int| 0 <= k < fs3.len() ==> !rule_hides(#[trigger] fs3[k], d));
    }
    assert(fns.drop_first() =~= seq![b, c, d]);
    assert(seq![b, c, d][0] == b);
    assert(seq![b, c, d].drop_first() =~= seq![c, d]);
    assert(seq![c, d][0] == c);
    assert(seq![c, d].drop_first() =~= seq![d]);
    assert(seq![d][0] == d);
    assert(seq![d].drop_first() =~= Seq::<Seq<char>>::empty());
    assert(span_decisions(fs0, fns) =~= seq![false, true, true, false]);
}

/// Once inside a span that has no `end` pattern, every remaining frame of
/// the traversal is hidden.
pub proof fn lemma_open_span_hides_rest(pb: Seq<char>, functions: Seq<Seq<char>>)
    ensures
        span_decisions(
            seq![FilterV { rule: RuleV::Span { begin: pb, end: None }, inside: true }],
            functions,
        ) =~= Seq::new(functions.len(), |i: int| true),
    decreases functions.len(),
{
    let fs = seq![FilterV { rule: RuleV::Span { begin: pb, end: None }, inside: true }];
    if functions.len() > 0 {
        assert(filters_step(fs, functions[0]) =~= fs);
        assert(filters_hide(fs, functions[0])) by {
            assert(rule_hides(fs[0], functions[0]));
        }
        lemma_open_span_hides_rest(pb, functions.drop_first());
        assert(span_decisions(fs, functions) =~= Seq::new(functions.len(), |i: int| true));
    } else {
        assert(span_decisions(fs, functions) =~= Seq::new(functions.len(), |i: int| true));
    }
}

/// A span rule with no `end` pattern whose `begin` matches `b` but not
/// `a` shows `a`, hides `b`, and hides every frame after `b` to the end
/// of the traversal.
pub proof fn lemma_open_span(pb: Seq<char>, a: Seq<char>, b: Seq<char>, rest: Seq<Seq<char>>)
    requires
        !regex_match(pb, a),
        regex_match(pb, b),
    ensures
        span_decisions(
            seq![FilterV { rule: RuleV::Span { begin: pb, end: None }, inside: false }],
            seq![a, b] + rest,
        ) =~= seq![false, true] + Seq::new(rest.len(), |i: int| true),
{
    let fs0 = seq![FilterV { rule: RuleV::Span { begin: pb, end: None }, inside: false }];
    let fns = seq![a, b] + rest;
    assert(fns[0] == a);
    let fs1 = filters_step(fs0, a);
    assert(fs1 =~= fs0);
    assert(!filters_hide(fs0, a)) by {
        assert(forall|k: int| 0 <= k < fs0.len() ==> !rule_hides(#[trigger] fs0[k], a));
    }
    assert(fns.drop_first() =~= seq![b] + rest);
    assert((seq![b] + rest)[0] == b);
    let fs2 = filters_step(fs1, b);
    assert(fs2 =~= seq![FilterV { rule: RuleV::Span { begin: pb, end: None }, inside: true }]);
    assert(filters_hide(fs1, b)) by {
        assert(rule_hides(fs1[0], b));
    }
    assert((seq![b] + rest).drop_first() =~= rest);
    lemma_open_span_hides_rest(pb, rest);
    let d_rest = span_decisions(fs2, rest);
    assert(span_decisions(fs1, fns.drop_first()) == seq![true] + d_rest);
    assert(span_decisions(fs0, fns) == seq![false] + (seq![true] + d_rest));
    assert(d_rest =~= Seq::new(rest.len(), |i: int| true));
    assert(span_decisions(fs0, fns) =~= seq![false, true] + Seq::new(rest.len(), |i: int| true));
}

} // verus!
