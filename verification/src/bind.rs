//! Schema descriptors and element binders.
//!
//! Each element kind of the schema — coverage, package, class, method,
//! line, condition — lists its attributes once, and a binder turns a tag's
//! extracted values into a fresh in-progress record of the model.

use vstd::prelude::*;

verus! {

use crate::attrs::{
    AttrType, AttrVal, AttrValView, Desc, DescView, descs_view, extract_attrs, spec_extract,
    vals_view, scan_attrs, apply_attr, first_missing, spec_convert,
};
use crate::error::{ParserError, ParserErrorView};
use crate::text::is_float_text;
use crate::{
    Class, ClassView, Condition, ConditionView, Coverage, CoverageView, Line, LineView, Method,
    MethodView, Package, PackageView,
};

/// Text payload of a string-typed value.
pub open spec fn sval_str(v: AttrValView) -> Seq<char> {
    match v {
        AttrValView::S(s) => s,
        _ => Seq::<char>::empty(),
    }
}

/// Text payload of a float-typed value.
pub open spec fn sval_float(v: AttrValView) -> Seq<char> {
    match v {
        AttrValView::F(s) => s,
        _ => Seq::<char>::empty(),
    }
}

/// Numeric payload of a machine-word value.
pub open spec fn sval_uint(v: AttrValView) -> int {
    match v {
        AttrValView::U(u) => u,
        _ => 0,
    }
}

/// Numeric payload of a 64-bit value.
pub open spec fn sval_u64(v: AttrValView) -> int {
    match v {
        AttrValView::U64(u) => u,
        _ => 0,
    }
}

/// Boolean payload, or `d` where the attribute never appeared.
pub open spec fn sval_bool_or(v: AttrValView, d: bool) -> bool {
    match v {
        AttrValView::B(b) => b,
        _ => d,
    }
}

/// Optional text payload: present exactly when the attribute appeared.
pub open spec fn sval_opt_str(v: AttrValView) -> Option<Seq<char>> {
    match v {
        AttrValView::S(s) => Some(s),
        _ => None,
    }
}

/// Text payload of a string-typed value.
fn val_str(v: &AttrVal) -> (r: String)
    ensures
        r@ == sval_str(v@),
{
    match v {
        AttrVal::S(s) => s.clone(),
        _ => String::new(),
    }
}

/// Text payload of a float-typed value.
fn val_float(v: &AttrVal) -> (r: String)
    ensures
        r@ == sval_float(v@),
{
    match v {
        AttrVal::F(s) => s.clone(),
        _ => String::new(),
    }
}

/// Numeric payload of a machine-word value.
fn val_uint(v: &AttrVal) -> (r: usize)
    ensures
        r as int == sval_uint(v@),
{
    match v {
        AttrVal::U(u) => *u,
        _ => 0,
    }
}

/// Numeric payload of a 64-bit value.
fn val_u64(v: &AttrVal) -> (r: u64)
    ensures
        r as int == sval_u64(v@),
{
    match v {
        AttrVal::U64(u) => *u,
        _ => 0,
    }
}

/// Boolean payload, or `d` where the attribute never appeared.
fn val_bool_or(v: &AttrVal, d: bool) -> (r: bool)
    ensures
        r == sval_bool_or(v@, d),
{
    match v {
        AttrVal::B(b) => *b,
        _ => d,
    }
}

/// Optional text payload: present exactly when the attribute appeared.
fn val_opt_str(v: &AttrVal) -> (r: Option<String>)
    ensures
        match (r, sval_opt_str(v@)) {
            (Some(s), Some(sv)) => s@ == sv,
            (None, None) => true,
            _ => false,
        },
{
    match v {
        AttrVal::S(s) => Some(s.clone()),
        _ => None,
    }
}

/// The attributes a `<coverage>` root declares.
pub open spec fn spec_coverage_descs() -> Seq<DescView> {
    seq![
        DescView { name: "line-rate"@, ty: AttrType::Float, required: true },
        DescView { name: "branch-rate"@, ty: AttrType::Float, required: true },
        DescView { name: "lines-covered"@, ty: AttrType::UInt, required: true },
        DescView { name: "lines-valid"@, ty: AttrType::UInt, required: true },
        DescView { name: "branches-covered"@, ty: AttrType::UInt, required: true },
        DescView { name: "branches-valid"@, ty: AttrType::UInt, required: true },
        DescView { name: "complexity"@, ty: AttrType::Float, required: true },
        DescView { name: "version"@, ty: AttrType::Str, required: true },
        DescView { name: "timestamp"@, ty: AttrType::U64, required: true },
    ]
}

/// The attributes a `<package>` declares.
pub open spec fn spec_package_descs() -> Seq<DescView> {
    seq![
        DescView { name: "name"@, ty: AttrType::Str, required: true },
        DescView { name: "line-rate"@, ty: AttrType::Float, required: true },
        DescView { name: "branch-rate"@, ty: AttrType::Float, required: true },
        DescView { name: "complexity"@, ty: AttrType::Float, required: true },
    ]
}

/// The attributes a `<class>` declares.
pub open spec fn spec_class_descs() -> Seq<DescView> {
    seq![
        DescView { name: "name"@, ty: AttrType::Str, required: true },
        DescView { name: "filename"@, ty: AttrType::Str, required: true },
        DescView { name: "line-rate"@, ty: AttrType::Float, required: true },
        DescView { name: "branch-rate"@, ty: AttrType::Float, required: true },
        DescView { name: "complexity"@, ty: AttrType::Float, required: true },
    ]
}

/// The attributes a `<method>` declares.
pub open spec fn spec_method_descs() -> Seq<DescView> {
    seq![
        DescView { name: "name"@, ty: AttrType::Str, required: true },
        DescView { name: "signature"@, ty: AttrType::Str, required: true },
        DescView { name: "line-rate"@, ty: AttrType::Float, required: true },
        DescView { name: "branch-rate"@, ty: AttrType::Float, required: true },
    ]
}

/// The attributes a `<line>` declares; `branch` and `condition-coverage`
/// are optional.
pub open spec fn spec_line_descs() -> Seq<DescView> {
    seq![
        DescView { name: "number"@, ty: AttrType::UInt, required: true },
        DescView { name: "hits"@, ty: AttrType::UInt, required: true },
        DescView { name: "branch"@, ty: AttrType::Bool, required: false },
        DescView { name: "condition-coverage"@, ty: AttrType::Str, required: false },
    ]
}

/// The attributes a `<condition>` declares.
pub open spec fn spec_condition_descs() -> Seq<DescView> {
    seq![
        DescView { name: "type"@, ty: AttrType::Str, required: true },
        DescView { name: "coverage"@, ty: AttrType::Str, required: true },
    ]
}

fn coverage_descs() -> (r: Vec<Desc>)
    ensures
        descs_view(r@) == spec_coverage_descs(),
{
    let mut v: Vec<Desc> = Vec::new();
    v.push(Desc { name: "line-rate".to_owned(), ty: AttrType::Float, required: true });
    v.push(Desc { name: "branch-rate".to_owned(), ty: AttrType::Float, required: true });
    v.push(Desc { name: "lines-covered".to_owned(), ty: AttrType::UInt, required: true });
    v.push(Desc { name: "lines-valid".to_owned(), ty: AttrType::UInt, required: true });
    v.push(Desc { name: "branches-covered".to_owned(), ty: AttrType::UInt, required: true });
    v.push(Desc { name: "branches-valid".to_owned(), ty: AttrType::UInt, required: true });
    v.push(Desc { name: "complexity".to_owned(), ty: AttrType::Float, required: true });
    v.push(Desc { name: "version".to_owned(), ty: AttrType::Str, required: true });
    v.push(Desc { name: "timestamp".to_owned(), ty: AttrType::U64, required: true });
    proof {
        assert(descs_view(v@) =~~= spec_coverage_descs());
    }
    v
}

fn package_descs() -> (r: Vec<Desc>)
    ensures
        descs_view(r@) == spec_package_descs(),
{
    let mut v: Vec<Desc> = Vec::new();
    v.push(Desc { name: "name".to_owned(), ty: AttrType::Str, required: true });
    v.push(Desc { name: "line-rate".to_owned(), ty: AttrType::Float, required: true });
    v.push(Desc { name: "branch-rate".to_owned(), ty: AttrType::Float, required: true });
    v.push(Desc { name: "complexity".to_owned(), ty: AttrType::Float, required: true });
    proof {
        assert(descs_view(v@) =~~= spec_package_descs());
    }
    v
}

fn class_descs() -> (r: Vec<Desc>)
    ensures
        descs_view(r@) == spec_class_descs(),
{
    let mut v: Vec<Desc> = Vec::new();
    v.push(Desc { name: "name".to_owned(), ty: AttrType::Str, required: true });
    v.push(Desc { name: "filename".to_owned(), ty: AttrType::Str, required: true });
    v.push(Desc { name: "line-rate".to_owned(), ty: AttrType::Float, required: true });
    v.push(Desc { name: "branch-rate".to_owned(), ty: AttrType::Float, required: true });
    v.push(Desc { name: "complexity".to_owned(), ty: AttrType::Float, required: true });
    proof {
        assert(descs_view(v@) =~~= spec_class_descs());
    }
    v
}

fn method_descs() -> (r: Vec<Desc>)
    ensures
        descs_view(r@) == spec_method_descs(),
{
    let mut v: Vec<Desc> = Vec::new();
    v.push(Desc { name: "name".to_owned(), ty: AttrType::Str, required: true });
    v.push(Desc { name: "signature".to_owned(), ty: AttrType::Str, required: true });
    v.push(Desc { name: "line-rate".to_owned(), ty: AttrType::Float, required: true });
    v.push(Desc { name: "branch-rate".to_owned(), ty: AttrType::Float, required: true });
    proof {
        assert(descs_view(v@) =~~= spec_method_descs());
    }
    v
}

fn line_descs() -> (r: Vec<Desc>)
    ensures
        descs_view(r@) == spec_line_descs(),
{
    let mut v: Vec<Desc> = Vec::new();
    v.push(Desc { name: "number".to_owned(), ty: AttrType::UInt, required: true });
    v.push(Desc { name: "hits".to_owned(), ty: AttrType::UInt, required: true });
    v.push(Desc { name: "branch".to_owned(), ty: AttrType::Bool, required: false });
    v.push(Desc { name: "condition-coverage".to_owned(), ty: AttrType::Str, required: false });
    proof {
        assert(descs_view(v@) =~~= spec_line_descs());
    }
    v
}

fn condition_descs() -> (r: Vec<Desc>)
    ensures
        descs_view(r@) == spec_condition_descs(),
{
    let mut v: Vec<Desc> = Vec::new();
    v.push(Desc { name: "type".to_owned(), ty: AttrType::Str, required: true });
    v.push(Desc { name: "coverage".to_owned(), ty: AttrType::Str, required: true });
    proof {
        assert(descs_view(v@) =~~= spec_condition_descs());
    }
    v
}

/// A successful scan yields one value per descriptor.
proof fn lemma_apply_len(
    vals: Seq<AttrValView>,
    descs: Seq<DescView>,
    j: int,
    key: Seq<char>,
    value: Seq<char>,
)
    requires
        vals.len() == descs.len(),
    ensures
        apply_attr(vals, descs, j, key, value) matches Ok(v2) ==> v2.len() == vals.len(),
    decreases descs.len() - j,
{
    if j < 0 || j >= descs.len() {
    } else if descs[j].name == key {
        match spec_convert(descs[j].ty, value) {
            Some(av) => lemma_apply_len(vals.update(j, av), descs, j + 1, key, value),
            None => {},
        }
    } else {
        lemma_apply_len(vals, descs, j + 1, key, value);
    }
}

/// A successful scan yields one value per descriptor.
proof fn lemma_scan_len(
    vals: Seq<AttrValView>,
    descs: Seq<DescView>,
    attrs: Seq<(Seq<char>, Seq<char>)>,
    k: int,
)
    requires
        vals.len() == descs.len(),
    ensures
        scan_attrs(vals, descs, attrs, k) matches Ok(v2) ==> v2.len() == vals.len(),
    decreases attrs.len() - k,
{
    if k < 0 || k >= attrs.len() {
    } else {
        match apply_attr(vals, descs, 0, attrs[k].0, attrs[k].1) {
            Ok(v2) => {
                lemma_apply_len(vals, descs, 0, attrs[k].0, attrs[k].1);
                lemma_scan_len(v2, descs, attrs, k + 1);
            },
            Err(_) => {},
        }
    }
}

/// A successful extraction yields one value per descriptor.
pub proof fn lemma_extract_len(descs: Seq<DescView>, attrs: Seq<(Seq<char>, Seq<char>)>)
    ensures
        spec_extract(descs, attrs) matches Ok(vals) ==> vals.len() == descs.len(),
{
    let init = Seq::new(descs.len(), |i: int| AttrValView::Absent);
    lemma_scan_len(init, descs, attrs, 0);
}

/// A value either is still absent or fits its descriptor's declared type.
pub open spec fn ty_matches(ty: AttrType, v: AttrValView) -> bool {
    match v {
        AttrValView::Absent => true,
        AttrValView::S(_) => ty == AttrType::Str,
        AttrValView::U(u) => ty == AttrType::UInt && 0 <= u <= usize::MAX,
        AttrValView::U64(u) => ty == AttrType::U64 && 0 <= u <= u64::MAX,
        AttrValView::F(s) => ty == AttrType::Float && is_float_text(s),
        AttrValView::B(_) => ty == AttrType::Bool,
    }
}

proof fn lemma_apply_types(
    vals: Seq<AttrValView>,
    descs: Seq<DescView>,
    j: int,
    key: Seq<char>,
    value: Seq<char>,
)
    requires
        vals.len() == descs.len(),
        forall|i: int| 0 <= i < descs.len() ==> ty_matches(descs[i].ty, #[trigger] vals[i]),
    ensures
        apply_attr(vals, descs, j, key, value) matches Ok(v2) ==> v2.len() == descs.len()
            && forall|i: int| 0 <= i < descs.len() ==> ty_matches(descs[i].ty, #[trigger] v2[i]),
    decreases descs.len() - j,
{
    if j < 0 || j >= descs.len() {
    } else if descs[j].name == key {
        match spec_convert(descs[j].ty, value) {
            Some(av) => {
                assert(ty_matches(descs[j].ty, av));
                lemma_apply_types(vals.update(j, av), descs, j + 1, key, value);
            },
            None => {},
        }
    } else {
        lemma_apply_types(vals, descs, j + 1, key, value);
    }
}

proof fn lemma_scan_types(
    vals: Seq<AttrValView>,
    descs: Seq<DescView>,
    attrs: Seq<(Seq<char>, Seq<char>)>,
    k: int,
)
    requires
        vals.len() == descs.len(),
        forall|i: int| 0 <= i < descs.len() ==> ty_matches(descs[i].ty, #[trigger] vals[i]),
    ensures
        scan_attrs(vals, descs, attrs, k) matches Ok(v2) ==> v2.len() == descs.len()
            && forall|i: int| 0 <= i < descs.len() ==> ty_matches(descs[i].ty, #[trigger] v2[i]),
    decreases attrs.len() - k,
{
    if k < 0 || k >= attrs.len() {
    } else {
        match apply_attr(vals, descs, 0, attrs[k].0, attrs[k].1) {
            Ok(v2) => {
                lemma_apply_types(vals, descs, 0, attrs[k].0, attrs[k].1);
                lemma_scan_types(v2, descs, attrs, k + 1);
            },
            Err(_) => {},
        }
    }
}

/// Extracted values fit their descriptors' declared types.
pub proof fn lemma_extract_types(descs: Seq<DescView>, attrs: Seq<(Seq<char>, Seq<char>)>)
    ensures
        spec_extract(descs, attrs) matches Ok(vals) ==> vals.len() == descs.len() && forall|
            i: int,
        | 0 <= i < descs.len() ==> ty_matches(descs[i].ty, #[trigger] vals[i]),
{
    let init = Seq::new(descs.len(), |i: int| AttrValView::Absent);
    assert(forall|i: int| 0 <= i < descs.len() ==> ty_matches(descs[i].ty, #[trigger] init[i]));
    lemma_scan_types(init, descs, attrs, 0);
}

/// What binding a `<coverage>` root's attributes yields: a document with
/// no sources and no packages yet, or the scan's first error.
pub open spec fn spec_bind_coverage(attrs: Seq<(Seq<char>, Seq<char>)>) -> Result<
    CoverageView,
    ParserErrorView,
> {
    match spec_extract(spec_coverage_descs(), attrs) {
        Ok(vals) => Ok(
            CoverageView {
                sources: Seq::<Seq<char>>::empty(),
                packages: Seq::<PackageView>::empty(),
                line_rate: sval_float(vals[0]),
                branch_rate: sval_float(vals[1]),
                lines_covered: sval_uint(vals[2]),
                lines_valid: sval_uint(vals[3]),
                branches_covered: sval_uint(vals[4]),
                branches_valid: sval_uint(vals[5]),
                complexity: sval_float(vals[6]),
                version: sval_str(vals[7]),
                timestamp: sval_u64(vals[8]),
            },
        ),
        Err(e) => Err(e),
    }
}

/// Binds a `<coverage>` root tag.
pub fn bind_coverage(attrs: &Vec<(String, String)>) -> (r: Result<Coverage, ParserError>)
    ensures
        match (r, spec_bind_coverage(
            attrs@.map_values(|p: (String, String)| (p.0@, p.1@)),
        )) {
            (Ok(c), Ok(cv)) => c@ == cv,
            (Err(e), Err(ev)) => e@ == ev,
            _ => false,
        },
{
    let ghost attrsv = attrs@.map_values(|p: (String, String)| (p.0@, p.1@));
    let descs = coverage_descs();
    let vals = match extract_attrs(&descs, attrs) {
        Ok(v) => v,
        Err(e) => {
            return Err(e);
        },
    };
    proof {
        lemma_extract_len(spec_coverage_descs(), attrsv);
        assert(vals.len() == 9);
    }
    let r = Coverage {
        sources: Vec::new(),
        packages: Vec::new(),
        line_rate: val_float(&vals[0]),
        branch_rate: val_float(&vals[1]),
        lines_covered: val_uint(&vals[2]),
        lines_valid: val_uint(&vals[3]),
        branches_covered: val_uint(&vals[4]),
        branches_valid: val_uint(&vals[5]),
        complexity: val_float(&vals[6]),
        version: val_str(&vals[7]),
        timestamp: val_u64(&vals[8]),
    };
    proof {
        let sv = spec_extract(spec_coverage_descs(), attrsv)->Ok_0;
        assert(forall|i: int| 0 <= i < 9 ==> (#[trigger] vals@[i])@ == sv[i]);
        assert(r@ =~~= spec_bind_coverage(attrsv)->Ok_0);
    }
    Ok(r)
}

/// What binding a `<package>` tag yields: a package with no classes yet.
pub open spec fn spec_bind_package(attrs: Seq<(Seq<char>, Seq<char>)>) -> Result<
    PackageView,
    ParserErrorView,
> {
    match spec_extract(spec_package_descs(), attrs) {
        Ok(vals) => Ok(
            PackageView {
                classes: Seq::<ClassView>::empty(),
                name: sval_str(vals[0]),
                line_rate: sval_float(vals[1]),
                branch_rate: sval_float(vals[2]),
                complexity: sval_float(vals[3]),
            },
        ),
        Err(e) => Err(e),
    }
}

/// Binds a `<package>` tag.
pub fn bind_package(attrs: &Vec<(String, String)>) -> (r: Result<Package, ParserError>)
    ensures
        match (r, spec_bind_package(
            attrs@.map_values(|p: (String, String)| (p.0@, p.1@)),
        )) {
            (Ok(p), Ok(pv)) => p@ == pv,
            (Err(e), Err(ev)) => e@ == ev,
            _ => false,
        },
{
    let ghost attrsv = attrs@.map_values(|p: (String, String)| (p.0@, p.1@));
    let descs = package_descs();
    let vals = match extract_attrs(&descs, attrs) {
        Ok(v) => v,
        Err(e) => {
            return Err(e);
        },
    };
    proof {
        lemma_extract_len(spec_package_descs(), attrsv);
        assert(vals.len() == 4);
    }
    let r = Package {
        classes: Vec::new(),
        name: val_str(&vals[0]),
        line_rate: val_float(&vals[1]),
        branch_rate: val_float(&vals[2]),
        complexity: val_float(&vals[3]),
    };
    proof {
        let sv = spec_extract(spec_package_descs(), attrsv)->Ok_0;
        assert(forall|i: int| 0 <= i < 4 ==> (#[trigger] vals@[i])@ == sv[i]);
        assert(r@ =~~= spec_bind_package(attrsv)->Ok_0);
    }
    Ok(r)
}

/// What binding a `<class>` tag yields: a class with no methods or lines yet.
pub open spec fn spec_bind_class(attrs: Seq<(Seq<char>, Seq<char>)>) -> Result<
    ClassView,
    ParserErrorView,
> {
    match spec_extract(spec_class_descs(), attrs) {
        Ok(vals) => Ok(
            ClassView {
                methods: Seq::<MethodView>::empty(),
                lines: Seq::<LineView>::empty(),
                name: sval_str(vals[0]),
                file_name: sval_str(vals[1]),
                line_rate: sval_float(vals[2]),
                branch_rate: sval_float(vals[3]),
                complexity: sval_float(vals[4]),
            },
        ),
        Err(e) => Err(e),
    }
}

/// Binds a `<class>` tag.
pub fn bind_class(attrs: &Vec<(String, String)>) -> (r: Result<Class, ParserError>)
    ensures
        match (r, spec_bind_class(
            attrs@.map_values(|p: (String, String)| (p.0@, p.1@)),
        )) {
            (Ok(c), Ok(cv)) => c@ == cv,
            (Err(e), Err(ev)) => e@ == ev,
            _ => false,
        },
{
    let ghost attrsv = attrs@.map_values(|p: (String, String)| (p.0@, p.1@));
    let descs = class_descs();
    let vals = match extract_attrs(&descs, attrs) {
        Ok(v) => v,
        Err(e) => {
            return Err(e);
        },
    };
    proof {
        lemma_extract_len(spec_class_descs(), attrsv);
        assert(vals.len() == 5);
    }
    let r = Class {
        methods: Vec::new(),
        lines: Vec::new(),
        name: val_str(&vals[0]),
        file_name: val_str(&vals[1]),
        line_rate: val_float(&vals[2]),
        branch_rate: val_float(&vals[3]),
        complexity: val_float(&vals[4]),
    };
    proof {
        let sv = spec_extract(spec_class_descs(), attrsv)->Ok_0;
        assert(forall|i: int| 0 <= i < 5 ==> (#[trigger] vals@[i])@ == sv[i]);
        assert(r@ =~~= spec_bind_class(attrsv)->Ok_0);
    }
    Ok(r)
}

/// What binding a `<method>` tag yields: a method with no lines yet.
pub open spec fn spec_bind_method(attrs: Seq<(Seq<char>, Seq<char>)>) -> Result<
    MethodView,
    ParserErrorView,
> {
    match spec_extract(spec_method_descs(), attrs) {
        Ok(vals) => Ok(
            MethodView {
                lines: Seq::<LineView>::empty(),
                name: sval_str(vals[0]),
                signature: sval_str(vals[1]),
                line_rate: sval_float(vals[2]),
                branch_rate: sval_float(vals[3]),
            },
        ),
        Err(e) => Err(e),
    }
}

/// Binds a `<method>` tag.
pub fn bind_method(attrs: &Vec<(String, String)>) -> (r: Result<Method, ParserError>)
    ensures
        match (r, spec_bind_method(
            attrs@.map_values(|p: (String, String)| (p.0@, p.1@)),
        )) {
            (Ok(m), Ok(mv)) => m@ == mv,
            (Err(e), Err(ev)) => e@ == ev,
            _ => false,
        },
{
    let ghost attrsv = attrs@.map_values(|p: (String, String)| (p.0@, p.1@));
    let descs = method_descs();
    let vals = match extract_attrs(&descs, attrs) {
        Ok(v) => v,
        Err(e) => {
            return Err(e);
        },
    };
    proof {
        lemma_extract_len(spec_method_descs(), attrsv);
        assert(vals.len() == 4);
    }
    let r = Method {
        lines: Vec::new(),
        name: val_str(&vals[0]),
        signature: val_str(&vals[1]),
        line_rate: val_float(&vals[2]),
        branch_rate: val_float(&vals[3]),
    };
    proof {
        let sv = spec_extract(spec_method_descs(), attrsv)->Ok_0;
        assert(forall|i: int| 0 <= i < 4 ==> (#[trigger] vals@[i])@ == sv[i]);
        assert(r@ =~~= spec_bind_method(attrsv)->Ok_0);
    }
    Ok(r)
}

/// What binding a `<line>` tag yields.  The tag's attributes replace the
/// in-progress line's number, hits and condition coverage; its conditions
/// are kept, and so is its branch flag where no `branch` attribute stands.
pub open spec fn spec_bind_line(prev: LineView, attrs: Seq<(Seq<char>, Seq<char>)>) -> Result<
    LineView,
    ParserErrorView,
> {
    match spec_extract(spec_line_descs(), attrs) {
        Ok(vals) => Ok(
            LineView {
                conditions: prev.conditions,
                number: sval_uint(vals[0]),
                hits: sval_uint(vals[1]),
                branch: sval_bool_or(vals[2], prev.branch),
                condition_coverage: sval_opt_str(vals[3]),
            },
        ),
        Err(e) => Err(e),
    }
}

/// Binds a `<line>` tag onto the in-progress line record.
pub fn bind_line(prev: &mut Line, attrs: &Vec<(String, String)>) -> (r: Result<(), ParserError>)
    ensures
        match (r, spec_bind_line(
            old(prev)@,
            attrs@.map_values(|p: (String, String)| (p.0@, p.1@)),
        )) {
            (Ok(()), Ok(lv)) => final(prev)@ == lv,
            (Err(e), Err(ev)) => e@ == ev,
            _ => false,
        },
{
    let ghost attrsv = attrs@.map_values(|p: (String, String)| (p.0@, p.1@));
    let descs = line_descs();
    let vals = match extract_attrs(&descs, attrs) {
        Ok(v) => v,
        Err(e) => {
            return Err(e);
        },
    };
    proof {
        lemma_extract_len(spec_line_descs(), attrsv);
        assert(vals.len() == 4);
    }
    prev.number = val_uint(&vals[0]);
    prev.hits = val_uint(&vals[1]);
    prev.branch = val_bool_or(&vals[2], prev.branch);
    prev.condition_coverage = val_opt_str(&vals[3]);
    proof {
        let sv = spec_extract(spec_line_descs(), attrsv)->Ok_0;
        assert(forall|i: int| 0 <= i < 4 ==> (#[trigger] vals@[i])@ == sv[i]);
        assert(prev@ =~~= spec_bind_line(old(prev)@, attrsv)->Ok_0);
    }
    Ok(())
}

/// What binding a `<condition>` tag yields: a fresh condition record.
pub open spec fn spec_bind_condition(attrs: Seq<(Seq<char>, Seq<char>)>) -> Result<
    ConditionView,
    ParserErrorView,
> {
    match spec_extract(spec_condition_descs(), attrs) {
        Ok(vals) => Ok(
            ConditionView { number: 0, type_: sval_str(vals[0]), coverage: sval_str(vals[1]) },
        ),
        Err(e) => Err(e),
    }
}

/// Binds a `<condition>` tag.
pub fn bind_condition(attrs: &Vec<(String, String)>) -> (r: Result<Condition, ParserError>)
    ensures
        match (r, spec_bind_condition(
            attrs@.map_values(|p: (String, String)| (p.0@, p.1@)),
        )) {
            (Ok(c), Ok(cv)) => c@ == cv,
            (Err(e), Err(ev)) => e@ == ev,
            _ => false,
        },
{
    let ghost attrsv = attrs@.map_values(|p: (String, String)| (p.0@, p.1@));
    let descs = condition_descs();
    let vals = match extract_attrs(&descs, attrs) {
        Ok(v) => v,
        Err(e) => {
            return Err(e);
        },
    };
    proof {
        lemma_extract_len(spec_condition_descs(), attrsv);
        assert(vals.len() == 2);
    }
    let r = Condition { number: 0, type_: val_str(&vals[0]), coverage: val_str(&vals[1]) };
    proof {
        let sv = spec_extract(spec_condition_descs(), attrsv)->Ok_0;
        assert(forall|i: int| 0 <= i < 2 ==> (#[trigger] vals@[i])@ == sv[i]);
        assert(r@ =~~= spec_bind_condition(attrsv)->Ok_0);
    }
    Ok(r)
}

proof fn lemma_first_missing_none(vals: Seq<AttrValView>, descs: Seq<DescView>, j: int)
    requires
        0 <= j,
    ensures
        first_missing(vals, descs, j) is None ==> forall|i: int|
            j <= i < descs.len() && (#[trigger] descs[i]).required ==> !(vals[i] is Absent),
    decreases descs.len() - j,
{
    if j < 0 || j >= descs.len() {
    } else {
        lemma_first_missing_none(vals, descs, j + 1);
        if first_missing(vals, descs, j) is None {
            assert(!(descs[j].required && vals[j] is Absent));
            assert(first_missing(vals, descs, j + 1) is None);
        }
    }
}

/// A required attribute's value is never absent after a successful
/// extraction.
pub proof fn lemma_extract_required(descs: Seq<DescView>, attrs: Seq<(Seq<char>, Seq<char>)>)
    ensures
        spec_extract(descs, attrs) matches Ok(vals) ==> forall|i: int|
            0 <= i < descs.len() && (#[trigger] descs[i]).required ==> !(vals[i] is Absent),
{
    let init = Seq::new(descs.len(), |i: int| AttrValView::Absent);
    match scan_attrs(init, descs, attrs, 0) {
        Ok(vals) => {
            lemma_first_missing_none(vals, descs, 0);
        },
        Err(_) => {},
    }
}

/// A bound document root is well formed: its rate attributes hold float
/// text, and it owns no packages yet.
pub proof fn lemma_bind_coverage_wf(attrs: Seq<(Seq<char>, Seq<char>)>)
    ensures
        spec_bind_coverage(attrs) matches Ok(c) ==> c.wf(),
{
    let descs = spec_coverage_descs();
    lemma_extract_types(descs, attrs);
    lemma_extract_required(descs, attrs);
    match spec_extract(descs, attrs) {
        Ok(vals) => {
            assert(ty_matches(descs[0].ty, vals[0]) && !(vals[0] is Absent));
            assert(ty_matches(descs[1].ty, vals[1]) && !(vals[1] is Absent));
            assert(ty_matches(descs[6].ty, vals[6]) && !(vals[6] is Absent));
        },
        Err(_) => {},
    }
}

/// A bound package is well formed.
pub proof fn lemma_bind_package_wf(attrs: Seq<(Seq<char>, Seq<char>)>)
    ensures
        spec_bind_package(attrs) matches Ok(p) ==> p.wf(),
{
    let descs = spec_package_descs();
    lemma_extract_types(descs, attrs);
    lemma_extract_required(descs, attrs);
    match spec_extract(descs, attrs) {
        Ok(vals) => {
            assert(ty_matches(descs[1].ty, vals[1]) && !(vals[1] is Absent));
            assert(ty_matches(descs[2].ty, vals[2]) && !(vals[2] is Absent));
            assert(ty_matches(descs[3].ty, vals[3]) && !(vals[3] is Absent));
        },
        Err(_) => {},
    }
}

/// A bound class is well formed.
pub proof fn lemma_bind_class_wf(attrs: Seq<(Seq<char>, Seq<char>)>)
    ensures
        spec_bind_class(attrs) matches Ok(c) ==> c.wf(),
{
    let descs = spec_class_descs();
    lemma_extract_types(descs, attrs);
    lemma_extract_required(descs, attrs);
    match spec_extract(descs, attrs) {
        Ok(vals) => {
            assert(ty_matches(descs[2].ty, vals[2]) && !(vals[2] is Absent));
            assert(ty_matches(descs[3].ty, vals[3]) && !(vals[3] is Absent));
            assert(ty_matches(descs[4].ty, vals[4]) && !(vals[4] is Absent));
        },
        Err(_) => {},
    }
}

/// A bound method is well formed.
pub proof fn lemma_bind_method_wf(attrs: Seq<(Seq<char>, Seq<char>)>)
    ensures
        spec_bind_method(attrs) matches Ok(m) ==> m.wf(),
{
    let descs = spec_method_descs();
    lemma_extract_types(descs, attrs);
    lemma_extract_required(descs, attrs);
    match spec_extract(descs, attrs) {
        Ok(vals) => {
            assert(ty_matches(descs[2].ty, vals[2]) && !(vals[2] is Absent));
            assert(ty_matches(descs[3].ty, vals[3]) && !(vals[3] is Absent));
        },
        Err(_) => {},
    }
}

} // verus!
