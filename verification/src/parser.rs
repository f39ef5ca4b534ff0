//! The schema-validating state machine and its public facade.
//!
//! One state per nested schema position; each classified event either moves
//! the machine along the Cobertura schema, attaches a finished sub-entity to
//! its parent, or fails with an error naming what was received and what was
//! acceptable.  The facade owns an optional in-progress machine: feeding it
//! events reports "need more input", "document complete" or "failed", and
//! any failure returns it to the unstarted shape.

use vstd::prelude::*;

verus! {

use crate::bind::{
    spec_bind_class, spec_bind_condition, spec_bind_coverage, spec_bind_line, spec_bind_method,
    spec_bind_package, bind_class, bind_condition, bind_coverage, bind_line, bind_method,
    bind_package,
};
use crate::error::{BasicEvent, ParserError, ParserErrorView};
use crate::events::{EventView, FilteredEvent};
use crate::text::str_eq;
use crate::{
    Class, ClassView, Coverage, CoverageView, Line, LineView, Method, MethodView, Package,
    PackageView, spec_default_class, spec_default_line, spec_default_method, spec_default_package,
};

/// What one feeding of an event reports: the machine needs more input, or
/// it is done with this value.
#[derive(Debug, Clone, PartialEq)]
pub enum Poll<T> {
    /// The document is complete or the parse has failed.
    Ready(T),
    /// More events are needed.
    Pending,
}

/// One state per position in the nested schema.
#[derive(Debug, Clone, Copy, PartialEq, Eq, Structural)]
pub enum State {
    ParsingCoverage,
    ParsingSources,
    ParsingSource,
    ParsingPackages,
    ParsingPackage,
    ParsingClasses,
    ParsingClass,
    ParsingClassLines,
    ParsingClassLine,
    ParsingMethods,
    ParsingMethod,
    ParsingMethodLines,
    ParsingMethodLine,
    ParsingMethodLineConditions,
    ParsingClassLineConditions,
    End,
}

/// The states inside a `<line>` element, where an in-flight line record
/// must exist.
pub open spec fn in_line_scope(s: State) -> bool {
    ||| s == State::ParsingClassLine
    ||| s == State::ParsingMethodLine
    ||| s == State::ParsingClassLineConditions
    ||| s == State::ParsingMethodLineConditions
}

/// The in-flight line slot's mathematical value.
pub open spec fn opt_line_view(l: Option<Line>) -> Option<LineView> {
    match l {
        Some(x) => Some(x@),
        None => None,
    }
}

/// The views of a list of line records.
pub open spec fn lines_view(s: Seq<Line>) -> Seq<LineView> {
    s.map_values(|l: Line| l@)
}

/// Mathematical value of an in-progress parse.
#[verifier::ext_equal]
pub struct InnerView {
    pub coverage: CoverageView,
    pub package: PackageView,
    pub class: ClassView,
    pub method: MethodView,
    pub line: Option<LineView>,
    pub state: State,
}

impl InnerView {
    /// Inside a line's scope an in-flight line record exists.
    pub open spec fn wf(self) -> bool {
        in_line_scope(self.state) ==> self.line is Some
    }
}

/// A start tag was required.
pub open spec fn err_start(ev: EventView, names: Seq<Seq<char>>) -> ParserErrorView {
    ParserErrorView::ExpectedStart { got: ev.basic(), expected: names }
}

/// An end tag was required.
pub open spec fn err_end(ev: EventView, names: Seq<Seq<char>>) -> ParserErrorView {
    ParserErrorView::ExpectedEnd { got: ev.basic(), expected: names }
}

/// A start or an end tag was required.
pub open spec fn err_start_end(
    ev: EventView,
    starts: Seq<Seq<char>>,
    ends: Seq<Seq<char>>,
) -> ParserErrorView {
    ParserErrorView::ExpectedStartOrEnd {
        got: ev.basic(),
        expected_starts: starts,
        expected_ends: ends,
    }
}

/// Inside `<coverage>`: `<sources>` or `<packages>` may open (also
/// self-closed), and `</coverage>` finishes the document.
pub open spec fn spec_in_coverage(ev: EventView) -> Result<State, ParserErrorView> {
    match ev {
        EventView::Start(tag) => if tag.name == "sources"@ {
            Ok(State::ParsingSources)
        } else if tag.name == "packages"@ {
            Ok(State::ParsingPackages)
        } else {
            Err(err_start(ev, seq!["sources"@, "packages"@]))
        },
        EventView::End(name) => if name == "coverage"@ {
            Ok(State::End)
        } else {
            Err(err_end(ev, seq!["coverage"@]))
        },
        EventView::AttributesOnly(tag) => if tag.name == "sources"@ || tag.name == "packages"@ {
            Ok(State::ParsingCoverage)
        } else {
            Err(err_start(ev, seq!["sources"@, "packages"@]))
        },
        EventView::Text(_) => Err(
            err_start_end(ev, seq!["sources"@, "packages"@], seq!["coverage"@]),
        ),
    }
}

/// Inside `<sources>`: only `<source>` entries.
pub open spec fn spec_in_sources(ev: EventView) -> Result<State, ParserErrorView> {
    match ev {
        EventView::Start(tag) => if tag.name == "source"@ {
            Ok(State::ParsingSource)
        } else {
            Err(err_start(ev, seq!["source"@]))
        },
        EventView::End(name) => if name == "sources"@ {
            Ok(State::ParsingCoverage)
        } else {
            Err(err_end(ev, seq!["sources"@]))
        },
        _ => Err(err_start_end(ev, seq!["source"@], seq!["sources"@])),
    }
}

/// Inside `<source>`: each text payload appends one source entry.
pub open spec fn spec_in_source(cov: CoverageView, ev: EventView) -> Result<
    (CoverageView, State),
    ParserErrorView,
> {
    match ev {
        EventView::Text(payload) => Ok(
            (CoverageView { sources: cov.sources.push(payload), ..cov }, State::ParsingSource),
        ),
        EventView::End(name) => if name == "source"@ {
            Ok((cov, State::ParsingSources))
        } else {
            Err(err_end(ev, seq!["source"@]))
        },
        _ => Err(err_start_end(ev, seq!["text"@], seq!["source"@])),
    }
}

/// Inside `<packages>`: each `<package>` binds its attributes and opens.
pub open spec fn spec_in_packages(pkg: PackageView, ev: EventView) -> Result<
    (PackageView, State),
    ParserErrorView,
> {
    match ev {
        EventView::Start(tag) => if tag.name == "package"@ {
            match spec_bind_package(tag.attrs) {
                Ok(p) => Ok((p, State::ParsingPackage)),
                Err(e) => Err(e),
            }
        } else {
            Err(err_start(ev, seq!["package"@]))
        },
        EventView::End(name) => if name == "packages"@ {
            Ok((pkg, State::ParsingCoverage))
        } else {
            Err(err_end(ev, seq!["packages"@]))
        },
        _ => Err(err_start_end(ev, seq!["package"@], seq!["packages"@])),
    }
}

/// Inside `<package>`: a `<classes>` container, and `</package>` appends
/// the finished package to the document.
pub open spec fn spec_in_package(
    cov: CoverageView,
    pkg: PackageView,
    ev: EventView,
) -> Result<(CoverageView, PackageView, State), ParserErrorView> {
    match ev {
        EventView::Start(tag) => if tag.name == "classes"@ {
            Ok((cov, pkg, State::ParsingClasses))
        } else {
            Err(err_start(ev, seq!["classes"@]))
        },
        EventView::End(name) => if name == "package"@ {
            Ok(
                (
                    CoverageView { packages: cov.packages.push(pkg), ..cov },
                    spec_default_package(),
                    State::ParsingPackages,
                ),
            )
        } else {
            Err(err_end(ev, seq!["package"@]))
        },
        EventView::AttributesOnly(tag) => if tag.name == "classes"@ {
            Ok((cov, pkg, State::ParsingPackage))
        } else {
            Err(err_start(ev, seq!["classes"@]))
        },
        EventView::Text(_) => Err(err_start_end(ev, seq!["classes"@], seq!["package"@])),
    }
}

/// Inside `<classes>`: each `<class>` binds and opens, and `</classes>`
/// appends the finished class to its package.
pub open spec fn spec_in_classes(pkg: PackageView, cls: ClassView, ev: EventView) -> Result<
    (PackageView, ClassView, State),
    ParserErrorView,
> {
    match ev {
        EventView::Start(tag) => if tag.name == "class"@ {
            match spec_bind_class(tag.attrs) {
                Ok(c) => Ok((pkg, c, State::ParsingClass)),
                Err(e) => Err(e),
            }
        } else {
            Err(err_start(ev, seq!["class"@]))
        },
        EventView::End(name) => if name == "classes"@ {
            Ok(
                (
                    PackageView { classes: pkg.classes.push(cls), ..pkg },
                    spec_default_class(),
                    State::ParsingPackage,
                ),
            )
        } else {
            Err(err_end(ev, seq!["classes"@]))
        },
        _ => Err(err_start_end(ev, seq!["class"@], seq!["classes"@])),
    }
}

/// Inside `<class>`: `<methods>` or `<lines>` containers (also
/// self-closed).
pub open spec fn spec_in_class(ev: EventView) -> Result<State, ParserErrorView> {
    match ev {
        EventView::Start(tag) => if tag.name == "methods"@ {
            Ok(State::ParsingMethods)
        } else if tag.name == "lines"@ {
            Ok(State::ParsingClassLines)
        } else {
            Err(err_start(ev, seq!["methods"@, "lines"@]))
        },
        EventView::End(name) => if name == "class"@ {
            Ok(State::ParsingClasses)
        } else {
            Err(err_end(ev, seq!["class"@]))
        },
        EventView::AttributesOnly(tag) => if tag.name == "methods"@ || tag.name == "lines"@ {
            Ok(State::ParsingClass)
        } else {
            Err(err_start(ev, seq!["methods"@, "lines"@]))
        },
        EventView::Text(_) => Err(
            err_start_end(ev, seq!["methods"@, "lines"@], seq!["class"@]),
        ),
    }
}

/// Inside `<methods>`: each `<method>` binds and opens, and `</methods>`
/// appends the finished method to its class.
pub open spec fn spec_in_methods(cls: ClassView, mth: MethodView, ev: EventView) -> Result<
    (ClassView, MethodView, State),
    ParserErrorView,
> {
    match ev {
        EventView::Start(tag) => if tag.name == "method"@ {
            match spec_bind_method(tag.attrs) {
                Ok(m) => Ok((cls, m, State::ParsingMethod)),
                Err(e) => Err(e),
            }
        } else {
            Err(err_start(ev, seq!["method"@]))
        },
        EventView::End(name) => if name == "methods"@ {
            Ok(
                (
                    ClassView { methods: cls.methods.push(mth), ..cls },
                    spec_default_method(),
                    State::ParsingClass,
                ),
            )
        } else {
            Err(err_end(ev, seq!["methods"@]))
        },
        _ => Err(err_start_end(ev, seq!["method"@], seq!["methods"@])),
    }
}

/// Inside `<method>`: a `<lines>` container (also self-closed).
pub open spec fn spec_in_method(ev: EventView) -> Result<State, ParserErrorView> {
    match ev {
        EventView::Start(tag) => if tag.name == "lines"@ {
            Ok(State::ParsingMethodLines)
        } else {
            Err(err_start(ev, seq!["lines"@]))
        },
        EventView::End(name) => if name == "method"@ {
            Ok(State::ParsingMethods)
        } else {
            Err(err_end(ev, seq!["method"@]))
        },
        EventView::AttributesOnly(tag) => if tag.name == "lines"@ {
            Ok(State::ParsingMethod)
        } else {
            Err(err_start(ev, seq!["lines"@]))
        },
        EventView::Text(_) => Err(err_start_end(ev, seq!["lines"@], seq!["method"@])),
    }
}

/// Inside a `<lines>` container.  A self-closing `<line>` binds and is
/// appended at once; `<line>` with children binds into the in-flight slot;
/// `</lines>` appends the in-flight line, if one exists, and closes the
/// container.
pub open spec fn spec_lines(
    line: Option<LineView>,
    lines: Seq<LineView>,
    ev: EventView,
    on_attr_only: State,
    on_list: State,
    on_end: State,
) -> Result<(Option<LineView>, Seq<LineView>, State), ParserErrorView> {
    let prev = match line {
        Some(l) => l,
        None => spec_default_line(),
    };
    match ev {
        EventView::Start(tag) => if tag.name == "line"@ {
            match spec_bind_line(prev, tag.attrs) {
                Ok(l) => Ok((Some(l), lines, on_list)),
                Err(e) => Err(e),
            }
        } else {
            Err(err_start(ev, seq!["line"@]))
        },
        EventView::AttributesOnly(tag) => if tag.name == "line"@ {
            match spec_bind_line(prev, tag.attrs) {
                Ok(l) => Ok((None, lines.push(l), on_attr_only)),
                Err(e) => Err(e),
            }
        } else {
            Err(err_start(ev, seq!["line"@]))
        },
        EventView::End(name) => if name == "lines"@ {
            match line {
                Some(l) => Ok((None, lines.push(l), on_end)),
                None => Ok((None, lines, on_end)),
            }
        } else {
            Err(err_end(ev, seq!["lines"@]))
        },
        EventView::Text(_) => Err(err_start_end(ev, seq!["line"@], seq!["lines"@])),
    }
}

/// Inside a `<line>` element: a `<conditions>` container (also
/// self-closed), and `</line>` returns to the enclosing container.
pub open spec fn spec_in_line(
    ev: EventView,
    on_conditions: State,
    on_lines: State,
    stay: State,
) -> Result<State, ParserErrorView> {
    match ev {
        EventView::Start(tag) => if tag.name == "conditions"@ {
            Ok(on_conditions)
        } else {
            Err(err_start(ev, seq!["conditions"@]))
        },
        EventView::End(name) => if name == "line"@ {
            Ok(on_lines)
        } else {
            Err(err_end(ev, seq!["line"@]))
        },
        EventView::AttributesOnly(tag) => if tag.name == "conditions"@ {
            Ok(stay)
        } else {
            Err(err_start(ev, seq!["conditions"@]))
        },
        EventView::Text(_) => Err(err_start_end(ev, seq!["conditions"@], seq!["line"@])),
    }
}

/// Inside `<conditions>`: each self-closing `<condition>` binds and is
/// appended to the in-flight line at once.
pub open spec fn spec_in_conditions(
    line: Option<LineView>,
    ev: EventView,
    stay: State,
    on_end: State,
) -> Result<(Option<LineView>, State), ParserErrorView> {
    match ev {
        EventView::AttributesOnly(tag) => if tag.name == "condition"@ {
            match spec_bind_condition(tag.attrs) {
                Ok(c) => {
                    let l = line.unwrap();
                    Ok((Some(LineView { conditions: l.conditions.push(c), ..l }), stay))
                },
                Err(e) => Err(e),
            }
        } else {
            Err(err_start(ev, seq!["condition"@]))
        },
        EventView::End(name) => if name == "conditions"@ {
            Ok((line, on_end))
        } else {
            Err(err_end(ev, seq!["conditions"@]))
        },
        _ => Err(err_start_end(ev, seq!["condition"@], seq!["conditions"@])),
    }
}

/// One step of the started machine: how each state answers each event,
/// exactly the schema's transition table.
pub open spec fn spec_inner_step(m: InnerView, ev: EventView) -> Result<
    InnerView,
    ParserErrorView,
> {
    match m.state {
        State::ParsingCoverage => match spec_in_coverage(ev) {
            Ok(s) => Ok(InnerView { state: s, ..m }),
            Err(e) => Err(e),
        },
        State::ParsingSources => match spec_in_sources(ev) {
            Ok(s) => Ok(InnerView { state: s, ..m }),
            Err(e) => Err(e),
        },
        State::ParsingSource => match spec_in_source(m.coverage, ev) {
            Ok((cov, s)) => Ok(InnerView { coverage: cov, state: s, ..m }),
            Err(e) => Err(e),
        },
        State::ParsingPackages => match spec_in_packages(m.package, ev) {
            Ok((pkg, s)) => Ok(InnerView { package: pkg, state: s, ..m }),
            Err(e) => Err(e),
        },
        State::ParsingPackage => match spec_in_package(m.coverage, m.package, ev) {
            Ok((cov, pkg, s)) => Ok(InnerView { coverage: cov, package: pkg, state: s, ..m }),
            Err(e) => Err(e),
        },
        State::ParsingClasses => match spec_in_classes(m.package, m.class, ev) {
            Ok((pkg, cls, s)) => Ok(InnerView { package: pkg, class: cls, state: s, ..m }),
            Err(e) => Err(e),
        },
        State::ParsingClass => match spec_in_class(ev) {
            Ok(s) => Ok(InnerView { state: s, ..m }),
            Err(e) => Err(e),
        },
        State::ParsingMethods => match spec_in_methods(m.class, m.method, ev) {
            Ok((cls, mth, s)) => Ok(InnerView { class: cls, method: mth, state: s, ..m }),
            Err(e) => Err(e),
        },
        State::ParsingMethod => match spec_in_method(ev) {
            Ok(s) => Ok(InnerView { state: s, ..m }),
            Err(e) => Err(e),
        },
        State::ParsingMethodLines => match spec_lines(
            m.line,
            m.method.lines,
            ev,
            State::ParsingMethodLines,
            State::ParsingMethodLine,
            State::ParsingMethod,
        ) {
            Ok((l, ls, s)) => Ok(
                InnerView {
                    line: l,
                    method: MethodView { lines: ls, ..m.method },
                    state: s,
                    ..m
                },
            ),
            Err(e) => Err(e),
        },
        State::ParsingClassLines => match spec_lines(
            m.line,
            m.class.lines,
            ev,
            State::ParsingClassLines,
            State::ParsingClassLine,
            State::ParsingClass,
        ) {
            Ok((l, ls, s)) => Ok(
                InnerView { line: l, class: ClassView { lines: ls, ..m.class }, state: s, ..m },
            ),
            Err(e) => Err(e),
        },
        State::ParsingMethodLine => match spec_in_line(
            ev,
            State::ParsingMethodLineConditions,
            State::ParsingMethodLines,
            State::ParsingMethodLine,
        ) {
            Ok(s) => Ok(InnerView { state: s, ..m }),
            Err(e) => Err(e),
        },
        State::ParsingClassLine => match spec_in_line(
            ev,
            State::ParsingClassLineConditions,
            State::ParsingClassLines,
            State::ParsingClassLine,
        ) {
            Ok(s) => Ok(InnerView { state: s, ..m }),
            Err(e) => Err(e),
        },
        State::ParsingMethodLineConditions => match spec_in_conditions(
            m.line,
            ev,
            State::ParsingMethodLineConditions,
            State::ParsingMethodLine,
        ) {
            Ok((l, s)) => Ok(InnerView { line: l, state: s, ..m }),
            Err(e) => Err(e),
        },
        State::ParsingClassLineConditions => match spec_in_conditions(
            m.line,
            ev,
            State::ParsingClassLineConditions,
            State::ParsingClassLine,
        ) {
            Ok((l, s)) => Ok(InnerView { line: l, state: s, ..m }),
            Err(e) => Err(e),
        },
        State::End => Ok(m),
    }
}

/// A machine step leaves the machine well formed.
pub proof fn lemma_step_wf(m: InnerView, ev: EventView)
    requires
        m.wf(),
    ensures
        spec_inner_step(m, ev) matches Ok(m2) ==> m2.wf(),
{
}

/// What feeding one event to the unstarted facade yields: only a
/// `coverage` start tag with valid attributes starts a machine.
pub open spec fn spec_start_document(ev: EventView) -> Result<InnerView, ParserErrorView> {
    match ev {
        EventView::Start(tag) => if tag.name == "coverage"@ {
            match spec_bind_coverage(tag.attrs) {
                Ok(c) => Ok(
                    InnerView {
                        coverage: c,
                        package: spec_default_package(),
                        class: spec_default_class(),
                        method: spec_default_method(),
                        line: None,
                        state: State::ParsingCoverage,
                    },
                ),
                Err(e) => Err(e),
            }
        } else {
            Err(err_start(ev, seq!["coverage"@]))
        },
        _ => Err(err_start(ev, seq!["coverage"@])),
    }
}

/// What one feeding of one event reports.
#[verifier::ext_equal]
pub enum StepView {
    /// More events are needed.
    Pending,
    /// The document completed with this value; the facade is unstarted
    /// again.
    Done(CoverageView),
    /// The parse failed; all in-progress state is discarded and the
    /// facade is unstarted again.
    Failed(ParserErrorView),
}

/// One step of the facade: from an optional in-progress machine and an
/// event to the next machine and what the call reports.
pub open spec fn spec_parser_step(p: Option<InnerView>, ev: EventView) -> (
    Option<InnerView>,
    StepView,
) {
    match p {
        None => match spec_start_document(ev) {
            Ok(m) => (Some(m), StepView::Pending),
            Err(e) => (None, StepView::Failed(e)),
        },
        Some(m) => match spec_inner_step(m, ev) {
            Ok(m2) => if m2.state == State::End {
                (None, StepView::Done(m2.coverage))
            } else {
                (Some(m2), StepView::Pending)
            },
            Err(e) => (None, StepView::Failed(e)),
        },
    }
}

fn names1(a: &str) -> (r: Vec<String>)
    ensures
        crate::error::names_view(r@) == seq![a@],
{
    let mut v: Vec<String> = Vec::new();
    v.push(a.to_owned());
    proof {
        assert(crate::error::names_view(v@) =~~= seq![a@]);
    }
    v
}

fn names2(a: &str, b: &str) -> (r: Vec<String>)
    ensures
        crate::error::names_view(r@) == seq![a@, b@],
{
    let mut v: Vec<String> = Vec::new();
    v.push(a.to_owned());
    v.push(b.to_owned());
    proof {
        assert(crate::error::names_view(v@) =~~= seq![a@, b@]);
    }
    v
}

/// The in-progress parse: the partial document, one in-flight record per
/// nested entity kind, and the schema position.
#[derive(Debug)]
pub struct ParserInner {
    pub coverage: Coverage,
    pub package: Package,
    pub class: Class,
    pub method: Method,
    pub line: Option<Line>,
    pub state: State,
}

impl View for ParserInner {
    type V = InnerView;

    open spec fn view(&self) -> InnerView {
        InnerView {
            coverage: self.coverage@,
            package: self.package@,
            class: self.class@,
            method: self.method@,
            line: opt_line_view(self.line),
            state: self.state,
        }
    }
}

impl ParserInner {
    fn in_coverage(event: &FilteredEvent) -> (r: Result<State, ParserError>)
        ensures
            match (r, spec_in_coverage(event@)) {
                (Ok(s), Ok(sv)) => s == sv,
                (Err(e), Err(ev)) => e@ == ev,
                _ => false,
            },
    {
        match event {
            FilteredEvent::Start(tag) => {
                if str_eq(tag.name.as_str(), "sources") {
                    Ok(State::ParsingSources)
                } else if str_eq(tag.name.as_str(), "packages") {
                    Ok(State::ParsingPackages)
                } else {
                    Err(
                        ParserError::start(
                            BasicEvent::from_event(event),
                            names2("sources", "packages"),
                        ),
                    )
                }
            },
            FilteredEvent::End(name) => {
                if str_eq(name.as_str(), "coverage") {
                    Ok(State::End)
                } else {
                    Err(ParserError::end(BasicEvent::from_event(event), names1("coverage")))
                }
            },
            FilteredEvent::AttributesOnly(tag) => {
                if str_eq(tag.name.as_str(), "sources") || str_eq(tag.name.as_str(), "packages") {
                    Ok(State::ParsingCoverage)
                } else {
                    Err(
                        ParserError::start(
                            BasicEvent::from_event(event),
                            names2("sources", "packages"),
                        ),
                    )
                }
            },
            FilteredEvent::Text(_) => Err(
                ParserError::start_end(
                    BasicEvent::from_event(event),
                    names2("sources", "packages"),
                    names1("coverage"),
                ),
            ),
        }
    }

    fn in_sources(event: &FilteredEvent) -> (r: Result<State, ParserError>)
        ensures
            match (r, spec_in_sources(event@)) {
                (Ok(s), Ok(sv)) => s == sv,
                (Err(e), Err(ev)) => e@ == ev,
                _ => false,
            },
    {
        match event {
            FilteredEvent::Start(tag) => {
                if str_eq(tag.name.as_str(), "source") {
                    Ok(State::ParsingSource)
                } else {
                    Err(ParserError::start(BasicEvent::from_event(event), names1("source")))
                }
            },
            FilteredEvent::End(name) => {
                if str_eq(name.as_str(), "sources") {
                    Ok(State::ParsingCoverage)
                } else {
                    Err(ParserError::end(BasicEvent::from_event(event), names1("sources")))
                }
            },
            _ => Err(
                ParserError::start_end(
                    BasicEvent::from_event(event),
                    names1("source"),
                    names1("sources"),
                ),
            ),
        }
    }

    fn in_source(coverage: &mut Coverage, event: &FilteredEvent) -> (r: Result<State, ParserError>)
        ensures
            match (r, spec_in_source(old(coverage)@, event@)) {
                (Ok(s), Ok((cov2, s2))) => s == s2 && final(coverage)@ == cov2,
                (Err(e), Err(ev)) => e@ == ev,
                _ => false,
            },
    {
        match event {
            FilteredEvent::Text(payload) => {
                coverage.sources.push(crate::Source { data: payload.clone() });
                proof {
                    assert(coverage@ =~~= (CoverageView {
                        sources: old(coverage)@.sources.push(payload@),
                        ..old(coverage)@
                    }));
                }
                Ok(State::ParsingSource)
            },
            FilteredEvent::End(name) => {
                if str_eq(name.as_str(), "source") {
                    Ok(State::ParsingSources)
                } else {
                    Err(ParserError::end(BasicEvent::from_event(event), names1("source")))
                }
            },
            _ => Err(
                ParserError::start_end(
                    BasicEvent::from_event(event),
                    names1("text"),
                    names1("source"),
                ),
            ),
        }
    }

    fn in_packages(package: &mut Package, event: &FilteredEvent) -> (r: Result<State, ParserError>)
        ensures
            match (r, spec_in_packages(old(package)@, event@)) {
                (Ok(s), Ok((pkg2, s2))) => s == s2 && final(package)@ == pkg2,
                (Err(e), Err(ev)) => e@ == ev,
                _ => false,
            },
    {
        match event {
            FilteredEvent::Start(tag) => {
                if str_eq(tag.name.as_str(), "package") {
                    match bind_package(&tag.attrs) {
                        Ok(p) => {
                            *package = p;
                            Ok(State::ParsingPackage)
                        },
                        Err(e) => Err(e),
                    }
                } else {
                    Err(ParserError::start(BasicEvent::from_event(event), names1("package")))
                }
            },
            FilteredEvent::End(name) => {
                if str_eq(name.as_str(), "packages") {
                    Ok(State::ParsingCoverage)
                } else {
                    Err(ParserError::end(BasicEvent::from_event(event), names1("packages")))
                }
            },
            _ => Err(
                ParserError::start_end(
                    BasicEvent::from_event(event),
                    names1("package"),
                    names1("packages"),
                ),
            ),
        }
    }

    fn in_package(
        coverage: &mut Coverage,
        package: &mut Package,
        event: &FilteredEvent,
    ) -> (r: Result<State, ParserError>)
        ensures
            match (r, spec_in_package(old(coverage)@, old(package)@, event@)) {
                (Ok(s), Ok((cov2, pkg2, s2))) => s == s2 && final(coverage)@ == cov2
                    && final(package)@ == pkg2,
                (Err(e), Err(ev)) => e@ == ev,
                _ => false,
            },
    {
        match event {
            FilteredEvent::Start(tag) => {
                if str_eq(tag.name.as_str(), "classes") {
                    Ok(State::ParsingClasses)
                } else {
                    Err(ParserError::start(BasicEvent::from_event(event), names1("classes")))
                }
            },
            FilteredEvent::End(name) => {
                if str_eq(name.as_str(), "package") {
                    let mut finished = Package::default();
                    core::mem::swap(package, &mut finished);
                    coverage.packages.push(finished);
                    proof {
                        assert(coverage@ =~~= (CoverageView {
                            packages: old(coverage)@.packages.push(old(package)@),
                            ..old(coverage)@
                        }));
                    }
                    Ok(State::ParsingPackages)
                } else {
                    Err(ParserError::end(BasicEvent::from_event(event), names1("package")))
                }
            },
            FilteredEvent::AttributesOnly(tag) => {
                if str_eq(tag.name.as_str(), "classes") {
                    Ok(State::ParsingPackage)
                } else {
                    Err(ParserError::start(BasicEvent::from_event(event), names1("classes")))
                }
            },
            FilteredEvent::Text(_) => Err(
                ParserError::start_end(
                    BasicEvent::from_event(event),
                    names1("classes"),
                    names1("package"),
                ),
            ),
        }
    }

    fn in_classes(
        package: &mut Package,
        class: &mut Class,
        event: &FilteredEvent,
    ) -> (r: Result<State, ParserError>)
        ensures
            match (r, spec_in_classes(old(package)@, old(class)@, event@)) {
                (Ok(s), Ok((pkg2, cls2, s2))) => s == s2 && final(package)@ == pkg2
                    && final(class)@ == cls2,
                (Err(e), Err(ev)) => e@ == ev,
                _ => false,
            },
    {
        match event {
            FilteredEvent::Start(tag) => {
                if str_eq(tag.name.as_str(), "class") {
                    match bind_class(&tag.attrs) {
                        Ok(c) => {
                            *class = c;
                            Ok(State::ParsingClass)
                        },
                        Err(e) => Err(e),
                    }
                } else {
                    Err(ParserError::start(BasicEvent::from_event(event), names1("class")))
                }
            },
            FilteredEvent::End(name) => {
                if str_eq(name.as_str(), "classes") {
                    let mut finished = Class::default();
                    core::mem::swap(class, &mut finished);
                    package.classes.push(finished);
                    proof {
                        assert(package@ =~~= (PackageView {
                            classes: old(package)@.classes.push(old(class)@),
                            ..old(package)@
                        }));
                    }
                    Ok(State::ParsingPackage)
                } else {
                    Err(ParserError::end(BasicEvent::from_event(event), names1("classes")))
                }
            },
            _ => Err(
                ParserError::start_end(
                    BasicEvent::from_event(event),
                    names1("class"),
                    names1("classes"),
                ),
            ),
        }
    }

    fn in_class(event: &FilteredEvent) -> (r: Result<State, ParserError>)
        ensures
            match (r, spec_in_class(event@)) {
                (Ok(s), Ok(sv)) => s == sv,
                (Err(e), Err(ev)) => e@ == ev,
                _ => false,
            },
    {
        match event {
            FilteredEvent::Start(tag) => {
                if str_eq(tag.name.as_str(), "methods") {
                    Ok(State::ParsingMethods)
                } else if str_eq(tag.name.as_str(), "lines") {
                    Ok(State::ParsingClassLines)
                } else {
                    Err(
                        ParserError::start(
                            BasicEvent::from_event(event),
                            names2("methods", "lines"),
                        ),
                    )
                }
            },
            FilteredEvent::End(name) => {
                if str_eq(name.as_str(), "class") {
                    Ok(State::ParsingClasses)
                } else {
                    Err(ParserError::end(BasicEvent::from_event(event), names1("class")))
                }
            },
            FilteredEvent::AttributesOnly(tag) => {
                if str_eq(tag.name.as_str(), "methods") || str_eq(tag.name.as_str(), "lines") {
                    Ok(State::ParsingClass)
                } else {
                    Err(
                        ParserError::start(
                            BasicEvent::from_event(event),
                            names2("methods", "lines"),
                        ),
                    )
                }
            },
            FilteredEvent::Text(_) => Err(
                ParserError::start_end(
                    BasicEvent::from_event(event),
                    names2("methods", "lines"),
                    names1("class"),
                ),
            ),
        }
    }

    fn in_methods(
        class: &mut Class,
        method: &mut Method,
        event: &FilteredEvent,
    ) -> (r: Result<State, ParserError>)
        ensures
            match (r, spec_in_methods(old(class)@, old(method)@, event@)) {
                (Ok(s), Ok((cls2, mth2, s2))) => s == s2 && final(class)@ == cls2
                    && final(method)@ == mth2,
                (Err(e), Err(ev)) => e@ == ev,
                _ => false,
            },
    {
        match event {
            FilteredEvent::Start(tag) => {
                if str_eq(tag.name.as_str(), "method") {
                    match bind_method(&tag.attrs) {
                        Ok(m) => {
                            *method = m;
                            Ok(State::ParsingMethod)
                        },
                        Err(e) => Err(e),
                    }
                } else {
                    Err(ParserError::start(BasicEvent::from_event(event), names1("method")))
                }
            },
            FilteredEvent::End(name) => {
                if str_eq(name.as_str(), "methods") {
                    let mut finished = Method::default();
                    core::mem::swap(method, &mut finished);
                    class.methods.push(finished);
                    proof {
                        assert(class@ =~~= (ClassView {
                            methods: old(class)@.methods.push(old(method)@),
                            ..old(class)@
                        }));
                    }
                    Ok(State::ParsingClass)
                } else {
                    Err(ParserError::end(BasicEvent::from_event(event), names1("methods")))
                }
            },
            _ => Err(
                ParserError::start_end(
                    BasicEvent::from_event(event),
                    names1("method"),
                    names1("methods"),
                ),
            ),
        }
    }

    fn in_method(event: &FilteredEvent) -> (r: Result<State, ParserError>)
        ensures
            match (r, spec_in_method(event@)) {
                (Ok(s), Ok(sv)) => s == sv,
                (Err(e), Err(ev)) => e@ == ev,
                _ => false,
            },
    {
        match event {
            FilteredEvent::Start(tag) => {
                if str_eq(tag.name.as_str(), "lines") {
                    Ok(State::ParsingMethodLines)
                } else {
                    Err(ParserError::start(BasicEvent::from_event(event), names1("lines")))
                }
            },
            FilteredEvent::End(name) => {
                if str_eq(name.as_str(), "method") {
                    Ok(State::ParsingMethods)
                } else {
                    Err(ParserError::end(BasicEvent::from_event(event), names1("method")))
                }
            },
            FilteredEvent::AttributesOnly(tag) => {
                if str_eq(tag.name.as_str(), "lines") {
                    Ok(State::ParsingMethod)
                } else {
                    Err(ParserError::start(BasicEvent::from_event(event), names1("lines")))
                }
            },
            FilteredEvent::Text(_) => Err(
                ParserError::start_end(
                    BasicEvent::from_event(event),
                    names1("lines"),
                    names1("method"),
                ),
            ),
        }
    }

    fn lines(
        line: &mut Option<Line>,
        lines: &mut Vec<Line>,
        event: &FilteredEvent,
        on_attr_only: State,
        on_list: State,
        on_end: State,
    ) -> (r: Result<State, ParserError>)
        ensures
            match (r, spec_lines(
                opt_line_view(*old(line)),
                lines_view(old(lines)@),
                event@,
                on_attr_only,
                on_list,
                on_end,
            )) {
                (Ok(s), Ok((l2, ls2, s2))) => s == s2 && opt_line_view(*final(line)) == l2
                    && lines_view(final(lines)@) == ls2,
                (Err(e), Err(ev)) => e@ == ev,
                _ => false,
            },
    {
        match event {
            FilteredEvent::Start(tag) => {
                if str_eq(tag.name.as_str(), "line") {
                    let mut prev = match line.take() {
                        Some(l) => l,
                        None => Line::default(),
                    };
                    match bind_line(&mut prev, &tag.attrs) {
                        Ok(()) => {
                            *line = Some(prev);
                            Ok(on_list)
                        },
                        Err(e) => Err(e),
                    }
                } else {
                    Err(ParserError::start(BasicEvent::from_event(event), names1("line")))
                }
            },
            FilteredEvent::AttributesOnly(tag) => {
                if str_eq(tag.name.as_str(), "line") {
                    let mut prev = match line.take() {
                        Some(l) => l,
                        None => Line::default(),
                    };
                    match bind_line(&mut prev, &tag.attrs) {
                        Ok(()) => {
                            lines.push(prev);
                            proof {
                                assert(lines_view(lines@) =~= lines_view(old(lines)@).push(
                                    prev@,
                                ));
                            }
                            Ok(on_attr_only)
                        },
                        Err(e) => Err(e),
                    }
                } else {
                    Err(ParserError::start(BasicEvent::from_event(event), names1("line")))
                }
            },
            FilteredEvent::End(name) => {
                if str_eq(name.as_str(), "lines") {
                    match line.take() {
                        Some(l) => {
                            lines.push(l);
                            proof {
                                assert(lines_view(lines@) =~= lines_view(old(lines)@).push(
                                    opt_line_view(*old(line)).unwrap(),
                                ));
                            }
                        },
                        None => {},
                    }
                    Ok(on_end)
                } else {
                    Err(ParserError::end(BasicEvent::from_event(event), names1("lines")))
                }
            },
            FilteredEvent::Text(_) => Err(
                ParserError::start_end(
                    BasicEvent::from_event(event),
                    names1("line"),
                    names1("lines"),
                ),
            ),
        }
    }

    fn in_method_lines(
        method: &mut Method,
        line: &mut Option<Line>,
        event: &FilteredEvent,
    ) -> (r: Result<State, ParserError>)
        ensures
            match (r, spec_lines(
                opt_line_view(*old(line)),
                old(method)@.lines,
                event@,
                State::ParsingMethodLines,
                State::ParsingMethodLine,
                State::ParsingMethod,
            )) {
                (Ok(s), Ok((l2, ls2, s2))) => s == s2 && opt_line_view(*final(line)) == l2
                    && final(method)@ == (MethodView { lines: ls2, ..old(method)@ }),
                (Err(e), Err(ev)) => e@ == ev,
                _ => false,
            },
    {
        let r = Self::lines(
            line,
            &mut method.lines,
            event,
            State::ParsingMethodLines,
            State::ParsingMethodLine,
            State::ParsingMethod,
        );
        proof {
            if r is Ok {
                assert(method@ =~~= (MethodView { lines: lines_view(method.lines@), ..old(method)@ }));
            }
        }
        r
    }

    fn in_class_lines(
        class: &mut Class,
        line: &mut Option<Line>,
        event: &FilteredEvent,
    ) -> (r: Result<State, ParserError>)
        ensures
            match (r, spec_lines(
                opt_line_view(*old(line)),
                old(class)@.lines,
                event@,
                State::ParsingClassLines,
                State::ParsingClassLine,
                State::ParsingClass,
            )) {
                (Ok(s), Ok((l2, ls2, s2))) => s == s2 && opt_line_view(*final(line)) == l2
                    && final(class)@ == (ClassView { lines: ls2, ..old(class)@ }),
                (Err(e), Err(ev)) => e@ == ev,
                _ => false,
            },
    {
        let r = Self::lines(
            line,
            &mut class.lines,
            event,
            State::ParsingClassLines,
            State::ParsingClassLine,
            State::ParsingClass,
        );
        proof {
            if r is Ok {
                assert(class@ =~~= (ClassView { lines: lines_view(class.lines@), ..old(class)@ }));
            }
        }
        r
    }

    fn in_method_line(event: &FilteredEvent) -> (r: Result<State, ParserError>)
        ensures
            match (r, spec_in_line(
                event@,
                State::ParsingMethodLineConditions,
                State::ParsingMethodLines,
                State::ParsingMethodLine,
            )) {
                (Ok(s), Ok(sv)) => s == sv,
                (Err(e), Err(ev)) => e@ == ev,
                _ => false,
            },
    {
        Self::in_line(
            event,
            State::ParsingMethodLineConditions,
            State::ParsingMethodLines,
            State::ParsingMethodLine,
        )
    }

    fn in_class_line(event: &FilteredEvent) -> (r: Result<State, ParserError>)
        ensures
            match (r, spec_in_line(
                event@,
                State::ParsingClassLineConditions,
                State::ParsingClassLines,
                State::ParsingClassLine,
            )) {
                (Ok(s), Ok(sv)) => s == sv,
                (Err(e), Err(ev)) => e@ == ev,
                _ => false,
            },
    {
        Self::in_line(
            event,
            State::ParsingClassLineConditions,
            State::ParsingClassLines,
            State::ParsingClassLine,
        )
    }

    fn in_line(
        event: &FilteredEvent,
        on_conditions: State,
        on_lines: State,
        stay: State,
    ) -> (r: Result<State, ParserError>)
        ensures
            match (r, spec_in_line(event@, on_conditions, on_lines, stay)) {
                (Ok(s), Ok(sv)) => s == sv,
                (Err(e), Err(ev)) => e@ == ev,
                _ => false,
            },
    {
        match event {
            FilteredEvent::Start(tag) => {
                if str_eq(tag.name.as_str(), "conditions") {
                    Ok(on_conditions)
                } else {
                    Err(ParserError::start(BasicEvent::from_event(event), names1("conditions")))
                }
            },
            FilteredEvent::End(name) => {
                if str_eq(name.as_str(), "line") {
                    Ok(on_lines)
                } else {
                    Err(ParserError::end(BasicEvent::from_event(event), names1("line")))
                }
            },
            FilteredEvent::AttributesOnly(tag) => {
                if str_eq(tag.name.as_str(), "conditions") {
                    Ok(stay)
                } else {
                    Err(ParserError::start(BasicEvent::from_event(event), names1("conditions")))
                }
            },
            FilteredEvent::Text(_) => Err(
                ParserError::start_end(
                    BasicEvent::from_event(event),
                    names1("conditions"),
                    names1("line"),
                ),
            ),
        }
    }

    fn in_line_conditions(
        line: &mut Option<Line>,
        event: &FilteredEvent,
        stay: State,
        on_end: State,
    ) -> (r: Result<State, ParserError>)
        requires
            (*old(line)) is Some,
        ensures
            match (r, spec_in_conditions(opt_line_view(*old(line)), event@, stay, on_end)) {
                (Ok(s), Ok((l2, s2))) => s == s2 && opt_line_view(*final(line)) == l2,
                (Err(e), Err(ev)) => e@ == ev,
                _ => false,
            },
    {
        match event {
            FilteredEvent::AttributesOnly(tag) => {
                if str_eq(tag.name.as_str(), "condition") {
                    match bind_condition(&tag.attrs) {
                        Ok(c) => {
                            let mut l = match line.take() {
                                Some(l) => l,
                                None => Line::default(),
                            };
                            l.conditions.push(c);
                            proof {
                                assert(l@ =~~= (LineView {
                                    conditions: opt_line_view(*old(line)).unwrap().conditions.push(
                                        c@,
                                    ),
                                    ..opt_line_view(*old(line)).unwrap()
                                }));
                            }
                            *line = Some(l);
                            Ok(stay)
                        },
                        Err(e) => Err(e),
                    }
                } else {
                    Err(ParserError::start(BasicEvent::from_event(event), names1("condition")))
                }
            },
            FilteredEvent::End(name) => {
                if str_eq(name.as_str(), "conditions") {
                    Ok(on_end)
                } else {
                    Err(ParserError::end(BasicEvent::from_event(event), names1("conditions")))
                }
            },
            _ => Err(
                ParserError::start_end(
                    BasicEvent::from_event(event),
                    names1("condition"),
                    names1("conditions"),
                ),
            ),
        }
    }

    fn in_method_line_conditions(
        line: &mut Option<Line>,
        event: &FilteredEvent,
    ) -> (r: Result<State, ParserError>)
        requires
            (*old(line)) is Some,
        ensures
            match (r, spec_in_conditions(
                opt_line_view(*old(line)),
                event@,
                State::ParsingMethodLineConditions,
                State::ParsingMethodLine,
            )) {
                (Ok(s), Ok((l2, s2))) => s == s2 && opt_line_view(*final(line)) == l2,
                (Err(e), Err(ev)) => e@ == ev,
                _ => false,
            },
    {
        Self::in_line_conditions(
            line,
            event,
            State::ParsingMethodLineConditions,
            State::ParsingMethodLine,
        )
    }

    fn in_class_line_conditions(
        line: &mut Option<Line>,
        event: &FilteredEvent,
    ) -> (r: Result<State, ParserError>)
        requires
            (*old(line)) is Some,
        ensures
            match (r, spec_in_conditions(
                opt_line_view(*old(line)),
                event@,
                State::ParsingClassLineConditions,
                State::ParsingClassLine,
            )) {
                (Ok(s), Ok((l2, s2))) => s == s2 && opt_line_view(*final(line)) == l2,
                (Err(e), Err(ev)) => e@ == ev,
                _ => false,
            },
    {
        Self::in_line_conditions(
            line,
            event,
            State::ParsingClassLineConditions,
            State::ParsingClassLine,
        )
    }

    /// Feeds one classified event to the started machine.
    fn consume_event(&mut self, event: &FilteredEvent) -> (r: Poll<Result<(), ParserError>>)
        requires
            old(self)@.wf(),
            old(self)@.state != State::End,
        ensures
            match spec_inner_step(old(self)@, event@) {
                Ok(m2) => final(self)@ == m2 && final(self)@.wf() && (if m2.state == State::End {
                    r == Poll::Ready(Ok::<(), ParserError>(()))
                } else {
                    r == Poll::<Result<(), ParserError>>::Pending
                }),
                Err(e) => r matches Poll::Ready(Err(pe)) && pe@ == e,
            },
    {
        let next = match self.state {
            State::ParsingCoverage => Self::in_coverage(event),
            State::ParsingSources => Self::in_sources(event),
            State::ParsingSource => Self::in_source(&mut self.coverage, event),
            State::ParsingPackages => Self::in_packages(&mut self.package, event),
            State::ParsingPackage => Self::in_package(&mut self.coverage, &mut self.package, event),
            State::ParsingClasses => Self::in_classes(&mut self.package, &mut self.class, event),
            State::ParsingClass => Self::in_class(event),
            State::ParsingMethods => Self::in_methods(&mut self.class, &mut self.method, event),
            State::ParsingMethod => Self::in_method(event),
            State::ParsingMethodLines => Self::in_method_lines(
                &mut self.method,
                &mut self.line,
                event,
            ),
            State::ParsingMethodLine => Self::in_method_line(event),
            State::ParsingMethodLineConditions => Self::in_method_line_conditions(
                &mut self.line,
                event,
            ),
            State::ParsingClassLines => Self::in_class_lines(&mut self.class, &mut self.line, event),
            State::ParsingClassLine => Self::in_class_line(event),
            State::ParsingClassLineConditions => Self::in_class_line_conditions(
                &mut self.line,
                event,
            ),
            // The facade never feeds a finished machine: `requires`
            // excludes this state.
            State::End => Err(ParserError::UnexpectedEof),
        };

        match next {
            Ok(s) => {
                self.state = s;
                proof {
                    assert(self@ =~~= spec_inner_step(old(self)@, event@)->Ok_0);
                    lemma_step_wf(old(self)@, event@);
                }
                if s == State::End {
                    Poll::Ready(Ok(()))
                } else {
                    Poll::Pending
                }
            },
            Err(e) => Poll::Ready(Err(e)),
        }
    }
}

/// The public parser facade: an optional in-progress machine with
/// suspend/resume semantics.
#[derive(Debug)]
pub struct Parser {
    inner: Option<ParserInner>,
}

impl View for Parser {
    type V = Option<InnerView>;

    closed spec fn view(&self) -> Option<InnerView> {
        match &self.inner {
            Some(i) => Some(i@),
            None => None,
        }
    }
}

impl Parser {
    /// The machine is well formed and, when started, not yet finished.
    pub open spec fn wf(self) -> bool {
        match self@ {
            Some(m) => m.wf() && m.state != State::End,
            None => true,
        }
    }

    /// A fresh, unstarted parser.
    pub fn new() -> (r: Self)
        ensures
            r@ == None::<InnerView>,
            r.wf(),
    {
        Self { inner: None }
    }

    /// Discards any in-progress parse and returns to the unstarted shape.
    pub fn reset(&mut self)
        ensures
            final(self)@ == None::<InnerView>,
            final(self).wf(),
    {
        self.inner.take();
    }

    /// Starts the machine on the root `coverage` tag; any other first
    /// event fails and leaves the parser unstarted.
    fn parse_coverage(&mut self, event: &FilteredEvent) -> (r: Result<(), ParserError>)
        requires
            old(self)@ is None,
        ensures
            match (r, spec_start_document(event@)) {
                (Ok(()), Ok(m)) => final(self)@ == Some(m),
                (Err(e), Err(ev)) => e@ == ev && final(self)@ is None,
                _ => false,
            },
    {
        let tag = match event {
            FilteredEvent::Start(tag) => tag,
            _ => {
                return Err(
                    ParserError::start(BasicEvent::from_event(event), names1("coverage")),
                );
            },
        };
        if !str_eq(tag.name.as_str(), "coverage") {
            return Err(ParserError::start(BasicEvent::from_event(event), names1("coverage")));
        }
        match bind_coverage(&tag.attrs) {
            Ok(c) => {
                self.inner = Some(
                    ParserInner {
                        coverage: c,
                        package: Package::default(),
                        class: Class::default(),
                        method: Method::default(),
                        line: None,
                        state: State::ParsingCoverage,
                    },
                );
                proof {
                    assert(self@->Some_0 =~~= spec_start_document(event@)->Ok_0);
                }
                Ok(())
            },
            Err(e) => Err(e),
        }
    }

    /// Feeds one classified event.  Reports `Pending` while more input is
    /// needed, `Ready(Ok(document))` when the root element closed, and
    /// `Ready(Err(_))` on the first schema violation; any `Ready` returns
    /// the parser to the unstarted shape, ready for the next document.
    pub fn consume_event(&mut self, event: &FilteredEvent) -> (r: Poll<
        Result<Coverage, ParserError>,
    >)
        requires
            old(self).wf(),
        ensures
            final(self).wf(),
            ({
                let (p2, step) = spec_parser_step(old(self)@, event@);
                final(self)@ == p2 && match step {
                    StepView::Pending => r matches Poll::Pending,
                    StepView::Done(cv) => r matches Poll::Ready(Ok(c)) && c@ == cv,
                    StepView::Failed(e) => r matches Poll::Ready(Err(pe)) && pe@ == e,
                }
            }),
    {
        let inner_result = match &mut self.inner {
            Some(inner) => Some(inner.consume_event(event)),
            None => None,
        };
        match inner_result {
            None => match self.parse_coverage(event) {
                Ok(()) => Poll::Pending,
                Err(e) => Poll::Ready(Err(e)),
            },
            Some(Poll::Pending) => Poll::Pending,
            Some(Poll::Ready(Ok(()))) => match self.inner.take() {
                Some(finished) => Poll::Ready(Ok(finished.coverage)),
                None => {
                    proof {
                        assert(false);
                    }
                    Poll::Pending
                },
            },
            Some(Poll::Ready(Err(e))) => {
                self.inner.take();
                Poll::Ready(Err(e))
            },
        }
    }
}

} // verus!
