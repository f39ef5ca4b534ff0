//! Properties of the machine as a whole.
//!
//! These lemmas state, over the specification of the step function, what
//! the parser guarantees across calls: determinism, order preservation,
//! and the behaviour of whole small documents.

use vstd::prelude::*;

verus! {

use crate::attrs::{
    AttrValView, DescView, apply_attr, first_missing, scan_attrs, spec_convert, spec_extract,
};
use crate::bind::{spec_bind_coverage, spec_bind_package};
use crate::error::ParserErrorView;
use crate::events::{EventView, TagView};
use crate::parser::{InnerView, State, StepView, spec_inner_step, spec_parser_step};
use crate::{CoverageView, PackageView};

/// The facade fed one event after another: the machine it ends with and
/// what the last feeding reported.  An empty sequence reports `Pending`,
/// as nothing was fed.
pub open spec fn drive(p: Option<InnerView>, evs: Seq<EventView>) -> (
    Option<InnerView>,
    StepView,
)
    decreases evs.len(),
{
    if evs.len() == 0 {
        (p, StepView::Pending)
    } else {
        let (p1, s1) = spec_parser_step(p, evs[0]);
        if evs.len() == 1 {
            (p1, s1)
        } else {
            drive(p1, evs.skip(1))
        }
    }
}

/// Determinism: the machine's step is a function of its state and the
/// event alone, so two instances in equal states fed the same event
/// sequence end in equal states with equal reports — in particular, two
/// fresh instances fed one valid document yield equal documents.
pub proof fn lemma_deterministic(p1: Option<InnerView>, p2: Option<InnerView>, evs: Seq<EventView>)
    requires
        p1 == p2,
    ensures
        drive(p1, evs) == drive(p2, evs),
{
}

/// Order preservation: a step of the machine never reorders or drops what
/// is already finished — the document's packages and the open package's
/// classes only grow at the end.
pub proof fn lemma_step_appends(m: InnerView, ev: EventView)
    ensures
        spec_inner_step(m, ev) matches Ok(m2) ==> m.coverage.packages.is_prefix_of(
            m2.coverage.packages,
        ),
        m.state == State::ParsingClasses ==> (spec_inner_step(m, ev) matches Ok(m2)
            ==> m.package.classes.is_prefix_of(m2.package.classes)),
        m.state == State::ParsingMethods ==> (spec_inner_step(m, ev) matches Ok(m2)
            ==> m.class.methods.is_prefix_of(m2.class.methods)),
        m.state == State::ParsingMethodLines ==> (spec_inner_step(m, ev) matches Ok(m2)
            ==> m.method.lines.is_prefix_of(m2.method.lines)),
        m.state == State::ParsingClassLines ==> (spec_inner_step(m, ev) matches Ok(m2)
            ==> m.class.lines.is_prefix_of(m2.class.lines)),
{
    match spec_inner_step(m, ev) {
        Ok(m2) => {
            assert(m.coverage.packages.is_prefix_of(m2.coverage.packages)) by {
                if m.coverage.packages != m2.coverage.packages {
                    assert(m2.coverage.packages == m.coverage.packages.push(m.package));
                    assert(m.coverage.packages =~= m2.coverage.packages.take(
                        m.coverage.packages.len() as int,
                    ));
                }
            }
            if m.state == State::ParsingClasses {
                assert(m.package.classes.is_prefix_of(m2.package.classes)) by {
                    if m.package.classes != m2.package.classes {
                        assert(m2.package.classes == m.package.classes.push(m.class));
                        assert(m.package.classes =~= m2.package.classes.take(
                            m.package.classes.len() as int,
                        ));
                    }
                }
            }
            if m.state == State::ParsingMethods {
                assert(m.class.methods.is_prefix_of(m2.class.methods)) by {
                    if m.class.methods != m2.class.methods {
                        assert(m2.class.methods == m.class.methods.push(m.method));
                        assert(m.class.methods =~= m2.class.methods.take(
                            m.class.methods.len() as int,
                        ));
                    }
                }
            }
            if m.state == State::ParsingMethodLines {
                assert(m.method.lines.is_prefix_of(m2.method.lines)) by {
                    if m.method.lines != m2.method.lines {
                        assert(m.method.lines =~= m2.method.lines.take(
                            m.method.lines.len() as int,
                        ));
                    }
                }
            }
            if m.state == State::ParsingClassLines {
                assert(m.class.lines.is_prefix_of(m2.class.lines)) by {
                    if m.class.lines != m2.class.lines {
                        assert(m.class.lines =~= m2.class.lines.take(
                            m.class.lines.len() as int,
                        ));
                    }
                }
            }
        },
        Err(_) => {},
    }
}

/// Whatever ends a parse — a completed document or a failure — leaves
/// the facade unstarted: no partial state survives a terminal report.
pub proof fn lemma_terminal_resets(p: Option<InnerView>, evs: Seq<EventView>)
    ensures
        ({
            let (p2, s2) = drive(p, evs);
            (s2 is Done || s2 is Failed) ==> p2 is None
        }),
    decreases evs.len(),
{
    if evs.len() == 0 {
    } else {
        let (p1, _s1) = spec_parser_step(p, evs[0]);
        if evs.len() == 1 {
        } else {
            lemma_terminal_resets(p1, evs.skip(1));
        }
    }
}

/// The minimal well-formed document: a root tag whose attributes bind,
/// one self-closed `<packages/>`, and the root end tag.  It parses to a
/// complete document with no packages and no sources, and the parser is
/// unstarted again.
pub proof fn lemma_minimal_document(attrs: Seq<(Seq<char>, Seq<char>)>, c: CoverageView)
    requires
        spec_bind_coverage(attrs) == Ok::<CoverageView, ParserErrorView>(c),
    ensures
        ({
            let evs = seq![
                EventView::Start(TagView { name: "coverage"@, attrs }),
                EventView::AttributesOnly(
                    TagView { name: "packages"@, attrs: Seq::<(Seq<char>, Seq<char>)>::empty() },
                ),
                EventView::End("coverage"@),
            ];
            drive(None, evs) == (None::<InnerView>, StepView::Done(c))
        }),
        c.packages.len() == 0,
        c.sources.len() == 0,
{
    reveal_strlit("coverage");
    reveal_strlit("sources");
    reveal_strlit("packages");
    let evs = seq![
        EventView::Start(TagView { name: "coverage"@, attrs }),
        EventView::AttributesOnly(
            TagView { name: "packages"@, attrs: Seq::<(Seq<char>, Seq<char>)>::empty() },
        ),
        EventView::End("coverage"@),
    ];
    let (q1, s1) = spec_parser_step(None, evs[0]);
    assert(s1 == StepView::Pending);
    let m1 = q1.unwrap();
    assert(m1.coverage == c);
    assert("packages"@ != "sources"@) by {
        assert("packages"@.len() == 8);
        assert("sources"@.len() == 7);
    }
    let (q2, s2) = spec_parser_step(q1, evs[1]);
    assert(s2 == StepView::Pending);
    assert(q2 == Some(InnerView { state: State::ParsingCoverage, ..m1 }));
    let (q3, s3) = spec_parser_step(q2, evs[2]);
    assert(q3 is None);
    assert(s3 == StepView::Done(c)) by {
        assert(spec_inner_step(q2.unwrap(), evs[2]) == Ok::<InnerView, ParserErrorView>(
            InnerView { state: State::End, ..m1 },
        ));
    }
    assert(evs.skip(1).skip(1) =~= seq![evs[2]]);
    assert(evs.skip(1) =~= seq![evs[1], evs[2]]);
    assert(evs.skip(1)[0] == evs[1]);
    assert(drive(q2, evs.skip(1).skip(1)) == (q3, s3));
    assert(drive(q1, evs.skip(1)) == (q3, s3));
    assert(drive(None, evs) == (q3, s3));
}

/// Source order is kept end to end: a document holding two packages,
/// first and second, completes with exactly those packages in exactly
/// that order.
pub proof fn lemma_two_packages_in_order(
    attrs: Seq<(Seq<char>, Seq<char>)>,
    a1: Seq<(Seq<char>, Seq<char>)>,
    a2: Seq<(Seq<char>, Seq<char>)>,
    c: CoverageView,
    p1: PackageView,
    p2: PackageView,
)
    requires
        spec_bind_coverage(attrs) == Ok::<CoverageView, ParserErrorView>(c),
        spec_bind_package(a1) == Ok::<PackageView, ParserErrorView>(p1),
        spec_bind_package(a2) == Ok::<PackageView, ParserErrorView>(p2),
    ensures
        ({
            let evs = seq![
                EventView::Start(TagView { name: "coverage"@, attrs }),
                EventView::Start(
                    TagView { name: "packages"@, attrs: Seq::<(Seq<char>, Seq<char>)>::empty() },
                ),
                EventView::Start(TagView { name: "package"@, attrs: a1 }),
                EventView::End("package"@),
                EventView::Start(TagView { name: "package"@, attrs: a2 }),
                EventView::End("package"@),
                EventView::End("packages"@),
                EventView::End("coverage"@),
            ];
            drive(None, evs) == (
                None::<InnerView>,
                StepView::Done(CoverageView { packages: seq![p1, p2], ..c }),
            )
        }),
{
    reveal_strlit("coverage");
    reveal_strlit("sources");
    reveal_strlit("packages");
    reveal_strlit("package");
    let evs = seq![
        EventView::Start(TagView { name: "coverage"@, attrs }),
        EventView::Start(
            TagView { name: "packages"@, attrs: Seq::<(Seq<char>, Seq<char>)>::empty() },
        ),
        EventView::Start(TagView { name: "package"@, attrs: a1 }),
        EventView::End("package"@),
        EventView::Start(TagView { name: "package"@, attrs: a2 }),
        EventView::End("package"@),
        EventView::End("packages"@),
        EventView::End("coverage"@),
    ];
    assert("packages"@ != "sources"@) by {
        assert("packages"@.len() == 8);
        assert("sources"@.len() == 7);
    }
    assert("package"@ != "packages"@) by {
        assert("package"@.len() == 7);
        assert("packages"@.len() == 8);
    }
    let (q1, s1) = spec_parser_step(None, evs[0]);
    assert(s1 == StepView::Pending);
    let m1 = q1.unwrap();
    assert(m1.coverage == c);
    let (q2, s2) = spec_parser_step(q1, evs[1]);
    assert(s2 == StepView::Pending && q2 == Some(InnerView { state: State::ParsingPackages, ..m1 }));
    let (q3, s3) = spec_parser_step(q2, evs[2]);
    assert(s3 == StepView::Pending);
    let m3 = q3.unwrap();
    assert(m3.package == p1 && m3.state == State::ParsingPackage && m3.coverage == c);
    let (q4, s4) = spec_parser_step(q3, evs[3]);
    assert(s4 == StepView::Pending);
    let m4 = q4.unwrap();
    assert(m4.coverage.packages == c.packages.push(p1) && m4.state == State::ParsingPackages);
    let (q5, s5) = spec_parser_step(q4, evs[4]);
    assert(s5 == StepView::Pending);
    let m5 = q5.unwrap();
    assert(m5.package == p2 && m5.state == State::ParsingPackage);
    let (q6, s6) = spec_parser_step(q5, evs[5]);
    assert(s6 == StepView::Pending);
    let m6 = q6.unwrap();
    assert(m6.coverage.packages == c.packages.push(p1).push(p2) && m6.state
        == State::ParsingPackages);
    let (q7, s7) = spec_parser_step(q6, evs[6]);
    assert(s7 == StepView::Pending && q7 == Some(InnerView { state: State::ParsingCoverage, ..m6 }));
    let (q8, s8) = spec_parser_step(q7, evs[7]);
    assert(q8 is None);
    assert(c.packages.push(p1).push(p2) =~= seq![p1, p2]);
    assert(m6.coverage =~~= (CoverageView { packages: seq![p1, p2], ..c }));
    assert(s8 == StepView::Done(CoverageView { packages: seq![p1, p2], ..c }));
    assert(evs.skip(1).skip(1).skip(1).skip(1).skip(1).skip(1).skip(1) =~= seq![evs[7]]);
    assert(evs.skip(1).skip(1).skip(1).skip(1).skip(1).skip(1) =~= seq![evs[6], evs[7]]);
    assert(evs.skip(1).skip(1).skip(1).skip(1).skip(1) =~= seq![evs[5], evs[6], evs[7]]);
    assert(evs.skip(1).skip(1).skip(1).skip(1) =~= seq![evs[4], evs[5], evs[6], evs[7]]);
    assert(evs.skip(1).skip(1).skip(1) =~= seq![evs[3], evs[4], evs[5], evs[6], evs[7]]);
    assert(evs.skip(1).skip(1) =~= seq![evs[2], evs[3], evs[4], evs[5], evs[6], evs[7]]);
    assert(evs.skip(1) =~= seq![evs[1], evs[2], evs[3], evs[4], evs[5], evs[6], evs[7]]);
    let tail7 = evs.skip(1);
    let tail6 = tail7.skip(1);
    let tail5 = tail6.skip(1);
    let tail4 = tail5.skip(1);
    let tail3 = tail4.skip(1);
    let tail2 = tail3.skip(1);
    let tail1 = tail2.skip(1);
    assert(tail6 =~= evs.skip(1).skip(1));
    assert(drive(q7, tail1) == (q8, s8));
    assert(tail2[0] == evs[6] && tail2.skip(1) =~= tail1);
    assert(drive(q6, tail2) == (q8, s8));
    assert(tail3[0] == evs[5] && tail3.skip(1) =~= tail2);
    assert(drive(q5, tail3) == (q8, s8));
    assert(tail4[0] == evs[4] && tail4.skip(1) =~= tail3);
    assert(drive(q4, tail4) == (q8, s8));
    assert(tail5[0] == evs[3] && tail5.skip(1) =~= tail4);
    assert(drive(q3, tail5) == (q8, s8));
    assert(tail6[0] == evs[2] && tail6.skip(1) =~= tail5);
    assert(drive(q2, tail6) == (q8, s8));
    assert(tail7[0] == evs[1] && tail7.skip(1) =~= tail6);
    assert(drive(q1, tail7) == (q8, s8));
    assert(drive(None, evs) == (q8, s8));
}

/// A self-closed `<classes/>` inside an open package adds nothing: the
/// machine stays on the package, whose class sequence is unchanged — for
/// a freshly bound package, still empty.
pub proof fn lemma_self_closed_classes(m: InnerView)
    requires
        m.state == State::ParsingPackage,
    ensures
        ({
            let ev = EventView::AttributesOnly(
                TagView { name: "classes"@, attrs: Seq::<(Seq<char>, Seq<char>)>::empty() },
            );
            spec_inner_step(m, ev) == Ok::<InnerView, ParserErrorView>(m)
        }),
{
    let ev = EventView::AttributesOnly(
        TagView { name: "classes"@, attrs: Seq::<(Seq<char>, Seq<char>)>::empty() },
    );
    match spec_inner_step(m, ev) {
        Ok(m2) => {
            assert(m2 =~~= m);
        },
        Err(_) => {
            assert(false);
        },
    }
}

/// A required attribute that never appears is reported by name: when
/// extraction fails with `MissingRequiredAttribute(n)`, some descriptor
/// declares the required name `n` and no scanned attribute bears it.
pub proof fn lemma_missing_names_absent_attribute(
    descs: Seq<DescView>,
    attrs: Seq<(Seq<char>, Seq<char>)>,
    n: Seq<char>,
)
    ensures
        spec_extract(descs, attrs) == Err::<Seq<AttrValView>, ParserErrorView>(
            ParserErrorView::MissingRequiredAttribute(n),
        ) ==> exists|j: int|
            0 <= j < descs.len() && (#[trigger] descs[j]).name == n && descs[j].required
                && forall|k: int| 0 <= k < attrs.len() ==> (#[trigger] attrs[k]).0 != n,
{
    let init = Seq::new(descs.len(), |i: int| AttrValView::Absent);
    lemma_scan_never_missing(init, descs, attrs, 0);
    match scan_attrs(init, descs, attrs, 0) {
        Ok(vals) => {
            if first_missing(vals, descs, 0) == Some(
                ParserErrorView::MissingRequiredAttribute(n),
            ) {
                let j = lemma_first_missing_witness(vals, descs, 0, n);
                lemma_scan_absent(init, descs, attrs, 0, j);
            }
        },
        Err(_) => {},
    }
}

/// The scan itself never produces a missing-attribute error.
proof fn lemma_scan_never_missing(
    vals: Seq<AttrValView>,
    descs: Seq<DescView>,
    attrs: Seq<(Seq<char>, Seq<char>)>,
    k: int,
)
    ensures
        forall|n: Seq<char>|
            scan_attrs(vals, descs, attrs, k) != Err::<Seq<AttrValView>, ParserErrorView>(
                ParserErrorView::MissingRequiredAttribute(n),
            ),
    decreases attrs.len() - k,
{
    if k < 0 || k >= attrs.len() {
    } else {
        lemma_apply_never_missing(vals, descs, 0, attrs[k].0, attrs[k].1);
        match apply_attr(vals, descs, 0, attrs[k].0, attrs[k].1) {
            Ok(v2) => {
                lemma_scan_never_missing(v2, descs, attrs, k + 1);
            },
            Err(_) => {},
        }
    }
}

/// Matching one attribute never produces a missing-attribute error.
proof fn lemma_apply_never_missing(
    vals: Seq<AttrValView>,
    descs: Seq<DescView>,
    j: int,
    key: Seq<char>,
    value: Seq<char>,
)
    ensures
        forall|n: Seq<char>|
            apply_attr(vals, descs, j, key, value) != Err::<Seq<AttrValView>, ParserErrorView>(
                ParserErrorView::MissingRequiredAttribute(n),
            ),
    decreases descs.len() - j,
{
    if j < 0 || j >= descs.len() {
    } else if descs[j].name == key {
        match spec_convert(descs[j].ty, value) {
            Some(av) => {
                lemma_apply_never_missing(vals.update(j, av), descs, j + 1, key, value);
            },
            None => {},
        }
    } else {
        lemma_apply_never_missing(vals, descs, j + 1, key, value);
    }
}

/// The first missing required descriptor is a witness for its name.
proof fn lemma_first_missing_witness(
    vals: Seq<AttrValView>,
    descs: Seq<DescView>,
    j0: int,
    n: Seq<char>,
) -> (j: int)
    requires
        0 <= j0,
        first_missing(vals, descs, j0) == Some(ParserErrorView::MissingRequiredAttribute(n)),
    ensures
        j0 <= j < descs.len(),
        descs[j].name == n,
        descs[j].required,
        vals[j] is Absent,
    decreases descs.len() - j0,
{
    if descs[j0].required && vals[j0] is Absent {
        j0
    } else {
        lemma_first_missing_witness(vals, descs, j0 + 1, n)
    }
}

/// A value still absent after the scan was never named by any attribute.
proof fn lemma_scan_absent(
    vals: Seq<AttrValView>,
    descs: Seq<DescView>,
    attrs: Seq<(Seq<char>, Seq<char>)>,
    k: int,
    j: int,
)
    requires
        0 <= k,
        0 <= j < descs.len(),
        vals.len() == descs.len(),
    ensures
        scan_attrs(vals, descs, attrs, k) matches Ok(v2) ==> (v2[j] is Absent ==> vals[j]
            is Absent && forall|i: int|
            k <= i < attrs.len() ==> (#[trigger] attrs[i]).0 != descs[j].name),
    decreases attrs.len() - k,
{
    if k < 0 || k >= attrs.len() {
    } else {
        lemma_apply_absent(vals, descs, 0, attrs[k].0, attrs[k].1, j);
        match apply_attr(vals, descs, 0, attrs[k].0, attrs[k].1) {
            Ok(v2) => {
                lemma_apply_keeps_len(vals, descs, 0, attrs[k].0, attrs[k].1);
                lemma_scan_absent(v2, descs, attrs, k + 1, j);
            },
            Err(_) => {},
        }
    }
}

/// Matching one attribute preserves the value list's length.
proof fn lemma_apply_keeps_len(
    vals: Seq<AttrValView>,
    descs: Seq<DescView>,
    j: int,
    key: Seq<char>,
    value: Seq<char>,
)
    requires
        vals.len() == descs.len(),
    ensures
        apply_attr(vals, descs, j, key, value) matches Ok(v2) ==> v2.len() == vals.len(),
    decreases descs.len() - j,
{
    if j < 0 || j >= descs.len() {
    } else if descs[j].name == key {
        match spec_convert(descs[j].ty, value) {
            Some(av) => {
                lemma_apply_keeps_len(vals.update(j, av), descs, j + 1, key, value);
            },
            None => {},
        }
    } else {
        lemma_apply_keeps_len(vals, descs, j + 1, key, value);
    }
}

/// If the scanned key bears a descriptor's name, the matched value is no
/// longer absent; and absence is only ever kept, never introduced.
proof fn lemma_apply_absent(
    vals: Seq<AttrValView>,
    descs: Seq<DescView>,
    j0: int,
    key: Seq<char>,
    value: Seq<char>,
    j: int,
)
    requires
        0 <= j0,
        0 <= j < descs.len(),
        vals.len() == descs.len(),
    ensures
        apply_attr(vals, descs, j0, key, value) matches Ok(v2) ==> (v2[j] is Absent ==> vals[j]
            is Absent && (j0 <= j ==> key != descs[j].name)),
    decreases descs.len() - j0,
{
    if j0 < 0 || j0 >= descs.len() {
    } else if descs[j0].name == key {
        match spec_convert(descs[j0].ty, value) {
            Some(av) => {
                lemma_apply_absent(vals.update(j0, av), descs, j0 + 1, key, value, j);
                assert(!(av is Absent));
            },
            None => {},
        }
    } else {
        lemma_apply_absent(vals, descs, j0 + 1, key, value, j);
    }
}

/// An unconvertible value is reported by name: when extraction fails with
/// `InvalidValueForAttribute(n)`, some descriptor declares the name `n`
/// and some scanned attribute bears it with a value that does not convert
/// to the declared type.
pub proof fn lemma_invalid_names_present_attribute(
    descs: Seq<DescView>,
    attrs: Seq<(Seq<char>, Seq<char>)>,
    n: Seq<char>,
)
    ensures
        spec_extract(descs, attrs) == Err::<Seq<AttrValView>, ParserErrorView>(
            ParserErrorView::InvalidValueForAttribute(n),
        ) ==> exists|j: int, k: int|
            0 <= j < descs.len() && 0 <= k < attrs.len() && (#[trigger] descs[j]).name == n
                && (#[trigger] attrs[k]).0 == n && spec_convert(descs[j].ty, attrs[k].1) is None,
{
    let init = Seq::new(descs.len(), |i: int| AttrValView::Absent);
    lemma_scan_invalid_witness(init, descs, attrs, 0, n);
    match scan_attrs(init, descs, attrs, 0) {
        Ok(vals) => {
            lemma_first_missing_not_invalid(vals, descs, 0, n);
        },
        Err(_) => {},
    }
}

/// The missing-attribute check never produces an invalid-value error.
proof fn lemma_first_missing_not_invalid(
    vals: Seq<AttrValView>,
    descs: Seq<DescView>,
    j: int,
    n: Seq<char>,
)
    ensures
        first_missing(vals, descs, j) != Some(ParserErrorView::InvalidValueForAttribute(n)),
    decreases descs.len() - j,
{
    if j < 0 || j >= descs.len() {
    } else if descs[j].required && vals[j] is Absent {
    } else {
        lemma_first_missing_not_invalid(vals, descs, j + 1, n);
    }
}

/// A scan failing with an invalid value has a witnessing descriptor and
/// attribute.
proof fn lemma_scan_invalid_witness(
    vals: Seq<AttrValView>,
    descs: Seq<DescView>,
    attrs: Seq<(Seq<char>, Seq<char>)>,
    k0: int,
    n: Seq<char>,
)
    ensures
        scan_attrs(vals, descs, attrs, k0) == Err::<Seq<AttrValView>, ParserErrorView>(
            ParserErrorView::InvalidValueForAttribute(n),
        ) ==> exists|j: int, k: int|
            0 <= j < descs.len() && 0 <= k < attrs.len() && (#[trigger] descs[j]).name == n
                && (#[trigger] attrs[k]).0 == n && spec_convert(descs[j].ty, attrs[k].1) is None,
    decreases attrs.len() - k0,
{
    if k0 < 0 || k0 >= attrs.len() {
    } else {
        lemma_apply_invalid_witness(vals, descs, 0, attrs[k0].0, attrs[k0].1, n);
        match apply_attr(vals, descs, 0, attrs[k0].0, attrs[k0].1) {
            Ok(v2) => {
                lemma_scan_invalid_witness(v2, descs, attrs, k0 + 1, n);
            },
            Err(e) => {
                if e == ParserErrorView::InvalidValueForAttribute(n) {
                    let j = choose|j: int|
                        0 <= j < descs.len() && (#[trigger] descs[j]).name == n && spec_convert(
                            descs[j].ty,
                            attrs[k0].1,
                        ) is None && attrs[k0].0 == n;
                    assert(0 <= j < descs.len() && 0 <= k0 < attrs.len() && descs[j].name == n
                        && attrs[k0].0 == n && spec_convert(descs[j].ty, attrs[k0].1) is None);
                }
            },
        }
    }
}

/// One attribute failing to convert has a witnessing descriptor.
proof fn lemma_apply_invalid_witness(
    vals: Seq<AttrValView>,
    descs: Seq<DescView>,
    j0: int,
    key: Seq<char>,
    value: Seq<char>,
    n: Seq<char>,
)
    ensures
        apply_attr(vals, descs, j0, key, value) == Err::<Seq<AttrValView>, ParserErrorView>(
            ParserErrorView::InvalidValueForAttribute(n),
        ) ==> key == n && exists|j: int|
            0 <= j < descs.len() && (#[trigger] descs[j]).name == n && spec_convert(
                descs[j].ty,
                value,
            ) is None,
    decreases descs.len() - j0,
{
    if j0 < 0 || j0 >= descs.len() {
    } else if descs[j0].name == key {
        match spec_convert(descs[j0].ty, value) {
            Some(av) => {
                lemma_apply_invalid_witness(vals.update(j0, av), descs, j0 + 1, key, value, n);
            },
            None => {},
        }
    } else {
        lemma_apply_invalid_witness(vals, descs, j0 + 1, key, value, n);
    }
}

} // verus!
