//! Incremental, schema-validating reader for Cobertura coverage reports.
//!
//! The crate turns a stream of classified XML events into a strongly typed
//! [`Coverage`] document, checking every element and attribute against the
//! nested Cobertura schema as the events arrive.  Rate and complexity
//! attributes are kept as their validated attribute text, so the document
//! carries exactly what the report declared.

use vstd::prelude::*;

pub mod attrs;
pub mod bind;
pub mod error;
pub mod events;
pub mod laws;
pub mod parser;
pub mod text;
pub mod xml;

pub use error::{BasicEvent, ParserError};
pub use events::{FilteredEvent, Tag};
pub use parser::{Parser, ParserInner, Poll, State};
pub use xml::utf8_attr;

verus! {

use crate::text::is_float_text;

/// A single `<source>` text entry of the report.
#[derive(Debug, Clone, PartialEq)]
pub struct Source {
    pub data: String,
}

/// A `<condition>` branch-outcome record attached to a line.
#[derive(Debug, Clone, PartialEq)]
pub struct Condition {
    pub number: usize,
    pub type_: String,
    pub coverage: String,
}

/// A `<line>` record with its hit count and attached conditions.
#[derive(Debug, Clone, PartialEq)]
pub struct Line {
    pub conditions: Vec<Condition>,
    pub number: usize,
    pub hits: usize,
    pub branch: bool,
    pub condition_coverage: Option<String>,
}

/// A `<method>` of a class, owning its ordered line records.
#[derive(Debug, Clone, PartialEq)]
pub struct Method {
    pub lines: Vec<Line>,
    pub name: String,
    pub signature: String,
    pub line_rate: String,
    pub branch_rate: String,
}

/// A `<class>` of a package, owning its methods and line records.
#[derive(Debug, Clone, PartialEq)]
pub struct Class {
    pub methods: Vec<Method>,
    pub lines: Vec<Line>,
    pub name: String,
    pub file_name: String,
    pub line_rate: String,
    pub branch_rate: String,
    pub complexity: String,
}

/// A `<package>` of the report, owning its ordered classes.
#[derive(Debug, Clone, PartialEq)]
pub struct Package {
    pub classes: Vec<Class>,
    pub name: String,
    pub line_rate: String,
    pub branch_rate: String,
    pub complexity: String,
}

/// The complete `<coverage>` document with its root attributes.
#[derive(Debug, Clone, PartialEq)]
pub struct Coverage {
    pub sources: Vec<Source>,
    pub packages: Vec<Package>,
    pub line_rate: String,
    pub branch_rate: String,
    pub lines_covered: usize,
    pub lines_valid: usize,
    pub branches_covered: usize,
    pub branches_valid: usize,
    pub complexity: String,
    pub version: String,
    pub timestamp: u64,
}

/// Mathematical value of a [`Condition`].
#[verifier::ext_equal]
pub struct ConditionView {
    pub number: int,
    pub type_: Seq<char>,
    pub coverage: Seq<char>,
}

/// Mathematical value of a [`Line`].
#[verifier::ext_equal]
pub struct LineView {
    pub conditions: Seq<ConditionView>,
    pub number: int,
    pub hits: int,
    pub branch: bool,
    pub condition_coverage: Option<Seq<char>>,
}

/// Mathematical value of a [`Method`].
#[verifier::ext_equal]
pub struct MethodView {
    pub lines: Seq<LineView>,
    pub name: Seq<char>,
    pub signature: Seq<char>,
    pub line_rate: Seq<char>,
    pub branch_rate: Seq<char>,
}

/// Mathematical value of a [`Class`].
#[verifier::ext_equal]
pub struct ClassView {
    pub methods: Seq<MethodView>,
    pub lines: Seq<LineView>,
    pub name: Seq<char>,
    pub file_name: Seq<char>,
    pub line_rate: Seq<char>,
    pub branch_rate: Seq<char>,
    pub complexity: Seq<char>,
}

/// Mathematical value of a [`Package`].
#[verifier::ext_equal]
pub struct PackageView {
    pub classes: Seq<ClassView>,
    pub name: Seq<char>,
    pub line_rate: Seq<char>,
    pub branch_rate: Seq<char>,
    pub complexity: Seq<char>,
}

/// Mathematical value of a [`Coverage`] document.
#[verifier::ext_equal]
pub struct CoverageView {
    pub sources: Seq<Seq<char>>,
    pub packages: Seq<PackageView>,
    pub line_rate: Seq<char>,
    pub branch_rate: Seq<char>,
    pub lines_covered: int,
    pub lines_valid: int,
    pub branches_covered: int,
    pub branches_valid: int,
    pub complexity: Seq<char>,
    pub version: Seq<char>,
    pub timestamp: int,
}

impl View for Source {
    type V = Seq<char>;

    open spec fn view(&self) -> Seq<char> {
        self.data@
    }
}

impl View for Condition {
    type V = ConditionView;

    open spec fn view(&self) -> ConditionView {
        ConditionView { number: self.number as int, type_: self.type_@, coverage: self.coverage@ }
    }
}

impl View for Line {
    type V = LineView;

    open spec fn view(&self) -> LineView {
        LineView {
            conditions: self.conditions@.map_values(|c: Condition| c@),
            number: self.number as int,
            hits: self.hits as int,
            branch: self.branch,
            condition_coverage: match self.condition_coverage {
                Some(s) => Some(s@),
                None => None,
            },
        }
    }
}

impl View for Method {
    type V = MethodView;

    open spec fn view(&self) -> MethodView {
        MethodView {
            lines: self.lines@.map_values(|l: Line| l@),
            name: self.name@,
            signature: self.signature@,
            line_rate: self.line_rate@,
            branch_rate: self.branch_rate@,
        }
    }
}

impl View for Class {
    type V = ClassView;

    open spec fn view(&self) -> ClassView {
        ClassView {
            methods: self.methods@.map_values(|m: Method| m@),
            lines: self.lines@.map_values(|l: Line| l@),
            name: self.name@,
            file_name: self.file_name@,
            line_rate: self.line_rate@,
            branch_rate: self.branch_rate@,
            complexity: self.complexity@,
        }
    }
}

impl View for Package {
    type V = PackageView;

    open spec fn view(&self) -> PackageView {
        PackageView {
            classes: self.classes@.map_values(|c: Class| c@),
            name: self.name@,
            line_rate: self.line_rate@,
            branch_rate: self.branch_rate@,
            complexity: self.complexity@,
        }
    }
}

impl View for Coverage {
    type V = CoverageView;

    open spec fn view(&self) -> CoverageView {
        CoverageView {
            sources: self.sources@.map_values(|s: Source| s@),
            packages: self.packages@.map_values(|p: Package| p@),
            line_rate: self.line_rate@,
            branch_rate: self.branch_rate@,
            lines_covered: self.lines_covered as int,
            lines_valid: self.lines_valid as int,
            branches_covered: self.branches_covered as int,
            branches_valid: self.branches_valid as int,
            complexity: self.complexity@,
            version: self.version@,
            timestamp: self.timestamp as int,
        }
    }
}

impl MethodView {
    /// Every rate attribute of the method holds text that reads as a float.
    pub open spec fn wf(self) -> bool {
        is_float_text(self.line_rate) && is_float_text(self.branch_rate)
    }
}

impl ClassView {
    /// Rate attributes hold float text, recursively for the owned methods.
    pub open spec fn wf(self) -> bool {
        &&& is_float_text(self.line_rate)
        &&& is_float_text(self.branch_rate)
        &&& is_float_text(self.complexity)
        &&& forall|i: int| 0 <= i < self.methods.len() ==> (#[trigger] self.methods[i]).wf()
    }
}

impl PackageView {
    /// Rate attributes hold float text, recursively for the owned classes.
    pub open spec fn wf(self) -> bool {
        &&& is_float_text(self.line_rate)
        &&& is_float_text(self.branch_rate)
        &&& is_float_text(self.complexity)
        &&& forall|i: int| 0 <= i < self.classes.len() ==> (#[trigger] self.classes[i]).wf()
    }
}

impl CoverageView {
    /// Rate attributes hold float text, recursively for the owned packages.
    pub open spec fn wf(self) -> bool {
        &&& is_float_text(self.line_rate)
        &&& is_float_text(self.branch_rate)
        &&& is_float_text(self.complexity)
        &&& forall|i: int| 0 <= i < self.packages.len() ==> (#[trigger] self.packages[i]).wf()
    }
}

/// The line records of the classes from `j` on, in document order.
pub open spec fn class_lines_from(classes: Seq<ClassView>, j: int) -> Seq<LineView>
    decreases classes.len() - j,
{
    if j < 0 || j >= classes.len() {
        Seq::<LineView>::empty()
    } else {
        classes[j].lines + class_lines_from(classes, j + 1)
    }
}

/// The class line records of the packages from `i` on, in document order.
pub open spec fn package_lines_from(packages: Seq<PackageView>, i: int) -> Seq<LineView>
    decreases packages.len() - i,
{
    if i < 0 || i >= packages.len() {
        Seq::<LineView>::empty()
    } else {
        class_lines_from(packages[i].classes, 0) + package_lines_from(packages, i + 1)
    }
}

/// Every class line record of the document, packages and classes in
/// document order.
pub open spec fn spec_class_lines(c: CoverageView) -> Seq<LineView> {
    package_lines_from(c.packages, 0)
}

/// The views of a list of borrowed line records.
pub open spec fn ref_lines_view(s: Seq<&Line>) -> Seq<LineView> {
    s.map_values(|l: &Line| l@)
}

impl Coverage {
    /// Every line record of every class, packages and classes in document
    /// order.  Method lines are left out: in the schema they restate the
    /// class lines they belong to.
    pub fn lines(&self) -> (r: Vec<&Line>)
        ensures
            ref_lines_view(r@) == spec_class_lines(self@),
    {
        let ghost pkgs = self@.packages;
        let mut out: Vec<&Line> = Vec::new();
        proof {
            assert(ref_lines_view(out@) =~= Seq::<LineView>::empty());
        }
        let mut i: usize = 0;
        while i < self.packages.len()
            invariant
                0 <= i <= self.packages.len(),
                pkgs == self@.packages,
                pkgs.len() == self.packages.len(),
                spec_class_lines(self@) =~= ref_lines_view(out@) + package_lines_from(
                    pkgs,
                    i as int,
                ),
            decreases self.packages.len() - i,
        {
            let p = &self.packages[i];
            let ghost classesv = pkgs[i as int].classes;
            proof {
                assert(p@ == pkgs[i as int]);
            }
            let mut j: usize = 0;
            while j < p.classes.len()
                invariant
                    0 <= j <= p.classes.len(),
                    i < self.packages.len(),
                    pkgs == self@.packages,
                    pkgs.len() == self.packages.len(),
                    i < pkgs.len(),
                    p@ == pkgs[i as int],
                    classesv == pkgs[i as int].classes,
                    classesv.len() == p.classes.len(),
                    spec_class_lines(self@) =~= ref_lines_view(out@) + class_lines_from(
                        classesv,
                        j as int,
                    ) + package_lines_from(pkgs, i as int + 1),
                decreases p.classes.len() - j,
            {
                let c = &p.classes[j];
                let ghost linesv = classesv[j as int].lines;
                proof {
                    assert(c@ == classesv[j as int]);
                }
                let mut k: usize = 0;
                while k < c.lines.len()
                    invariant
                        0 <= k <= c.lines.len(),
                        j < classesv.len(),
                        c@ == classesv[j as int],
                        linesv == classesv[j as int].lines,
                        linesv.len() == c.lines.len(),
                        spec_class_lines(self@) =~= ref_lines_view(out@) + linesv.skip(k as int)
                            + class_lines_from(classesv, j as int + 1) + package_lines_from(
                            pkgs,
                            i as int + 1,
                        ),
                    decreases c.lines.len() - k,
                {
                    let ghost before = out@;
                    out.push(&c.lines[k]);
                    proof {
                        assert(c.lines[k as int]@ == linesv[k as int]);
                        assert(ref_lines_view(out@) =~= ref_lines_view(before).push(
                            linesv[k as int],
                        ));
                        assert(linesv.skip(k as int) =~= seq![linesv[k as int]] + linesv.skip(
                            k as int + 1,
                        ));
                    }
                    k += 1;
                }
                proof {
                    assert(linesv.skip(linesv.len() as int) =~= Seq::<LineView>::empty());
                    assert(class_lines_from(classesv, j as int) == linesv + class_lines_from(
                        classesv,
                        j as int + 1,
                    ));
                }
                j += 1;
            }
            proof {
                assert(class_lines_from(classesv, classesv.len() as int) =~= Seq::<
                    LineView,
                >::empty());
                assert(package_lines_from(pkgs, i as int) == class_lines_from(classesv, 0)
                    + package_lines_from(pkgs, i as int + 1));
            }
            i += 1;
        }
        proof {
            assert(package_lines_from(pkgs, pkgs.len() as int) =~= Seq::<LineView>::empty());
        }
        out
    }
}

/// The all-empty line record.
pub open spec fn spec_default_line() -> LineView {
    LineView {
        conditions: Seq::<ConditionView>::empty(),
        number: 0,
        hits: 0,
        branch: false,
        condition_coverage: None::<Seq<char>>,
    }
}

/// The all-empty method record.
pub open spec fn spec_default_method() -> MethodView {
    MethodView {
        lines: Seq::<LineView>::empty(),
        name: Seq::<char>::empty(),
        signature: Seq::<char>::empty(),
        line_rate: Seq::<char>::empty(),
        branch_rate: Seq::<char>::empty(),
    }
}

/// The all-empty class record.
pub open spec fn spec_default_class() -> ClassView {
    ClassView {
        methods: Seq::<MethodView>::empty(),
        lines: Seq::<LineView>::empty(),
        name: Seq::<char>::empty(),
        file_name: Seq::<char>::empty(),
        line_rate: Seq::<char>::empty(),
        branch_rate: Seq::<char>::empty(),
        complexity: Seq::<char>::empty(),
    }
}

/// The all-empty package record.
pub open spec fn spec_default_package() -> PackageView {
    PackageView {
        classes: Seq::<ClassView>::empty(),
        name: Seq::<char>::empty(),
        line_rate: Seq::<char>::empty(),
        branch_rate: Seq::<char>::empty(),
        complexity: Seq::<char>::empty(),
    }
}

impl Default for Method {
    /// An all-empty method record, used as the fresh in-progress slot.
    fn default() -> (r: Method)
        ensures
            r@ == spec_default_method(),
    {
        let r = Method {
            lines: Vec::new(),
            name: String::new(),
            signature: String::new(),
            line_rate: String::new(),
            branch_rate: String::new(),
        };
        proof {
            assert(r@ =~~= spec_default_method());
        }
        r
    }
}

impl Default for Class {
    /// An all-empty class record, used as the fresh in-progress slot.
    fn default() -> (r: Class)
        ensures
            r@ == spec_default_class(),
    {
        let r = Class {
            methods: Vec::new(),
            lines: Vec::new(),
            name: String::new(),
            file_name: String::new(),
            line_rate: String::new(),
            branch_rate: String::new(),
            complexity: String::new(),
        };
        proof {
            assert(r@ =~~= spec_default_class());
        }
        r
    }
}

impl Default for Package {
    /// An all-empty package record, used as the fresh in-progress slot.
    fn default() -> (r: Package)
        ensures
            r@ == spec_default_package(),
    {
        let r = Package {
            classes: Vec::new(),
            name: String::new(),
            line_rate: String::new(),
            branch_rate: String::new(),
            complexity: String::new(),
        };
        proof {
            assert(r@ =~~= spec_default_package());
        }
        r
    }
}

impl Default for Condition {
    /// An all-empty condition record, used as the fresh in-progress slot.
    fn default() -> (r: Condition)
        ensures
            r@ == (ConditionView { number: 0, type_: Seq::<char>::empty(), coverage: Seq::<char>::empty() }),
    {
        Condition { number: 0, type_: String::new(), coverage: String::new() }
    }
}

impl Default for Line {
    /// An all-empty line record, used as the fresh in-progress slot.
    fn default() -> (r: Line)
        ensures
            r@ == spec_default_line(),
    {
        let r = Line {
            conditions: Vec::new(),
            number: 0,
            hits: 0,
            branch: false,
            condition_coverage: None,
        };
        proof {
            assert(r@ =~~= spec_default_line());
        }
        r
    }
}

} // verus!
