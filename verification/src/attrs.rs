//! The generic attribute extractor.
//!
//! Every element kind declares its attributes as a list of descriptors —
//! name, value type, required or not — and one routine scans a tag's
//! attribute list against them.  A present value that does not convert is
//! `InvalidValueForAttribute`; a required name still absent after the full
//! scan is `MissingRequiredAttribute`; unknown names are ignored.

use vstd::prelude::*;

verus! {

use crate::error::{ParserError, ParserErrorView};
use crate::text::{
    is_float_text, is_float_str, spec_parse_bool, spec_parse_usize, spec_parse_u64,
    parse_bool_str, parse_usize_str, parse_u64_str,
};

/// The value types an attribute can declare.
#[derive(Debug, Clone, Copy, PartialEq, Eq, Structural)]
pub enum AttrType {
    /// Free text, kept as it stands.
    Str,
    /// An unsigned machine-word integer.
    UInt,
    /// An unsigned 64-bit integer.
    U64,
    /// Floating-point text; recognised and kept as text.
    Float,
    /// `true` or `false`.
    Bool,
}

/// One attribute a schema element declares.
#[derive(Debug, Clone, PartialEq)]
pub struct Desc {
    pub name: String,
    pub ty: AttrType,
    pub required: bool,
}

/// Mathematical value of a [`Desc`].
#[verifier::ext_equal]
pub struct DescView {
    pub name: Seq<char>,
    pub ty: AttrType,
    pub required: bool,
}

impl View for Desc {
    type V = DescView;

    open spec fn view(&self) -> DescView {
        DescView { name: self.name@, ty: self.ty, required: self.required }
    }
}

/// The views of a descriptor list.
pub open spec fn descs_view(v: Seq<Desc>) -> Seq<DescView> {
    v.map_values(|d: Desc| d@)
}

/// A converted attribute value, or `Absent` when the name never appeared.
#[derive(Debug, Clone, PartialEq)]
pub enum AttrVal {
    S(String),
    U(usize),
    U64(u64),
    F(String),
    B(bool),
    Absent,
}

/// Mathematical value of an [`AttrVal`].
#[verifier::ext_equal]
pub enum AttrValView {
    S(Seq<char>),
    U(int),
    U64(int),
    F(Seq<char>),
    B(bool),
    Absent,
}

impl View for AttrVal {
    type V = AttrValView;

    open spec fn view(&self) -> AttrValView {
        match self {
            AttrVal::S(s) => AttrValView::S(s@),
            AttrVal::U(u) => AttrValView::U(*u as int),
            AttrVal::U64(u) => AttrValView::U64(*u as int),
            AttrVal::F(s) => AttrValView::F(s@),
            AttrVal::B(b) => AttrValView::B(*b),
            AttrVal::Absent => AttrValView::Absent,
        }
    }
}

/// The views of a value list.
pub open spec fn vals_view(v: Seq<AttrVal>) -> Seq<AttrValView> {
    v.map_values(|a: AttrVal| a@)
}

/// What converting one value text to one declared type yields.
pub open spec fn spec_convert(ty: AttrType, v: Seq<char>) -> Option<AttrValView> {
    match ty {
        AttrType::Str => Some(AttrValView::S(v)),
        AttrType::UInt => match spec_parse_usize(v) {
            Some(u) => Some(AttrValView::U(u as int)),
            None => None,
        },
        AttrType::U64 => match spec_parse_u64(v) {
            Some(u) => Some(AttrValView::U64(u as int)),
            None => None,
        },
        AttrType::Float => if is_float_text(v) {
            Some(AttrValView::F(v))
        } else {
            None
        },
        AttrType::Bool => match spec_parse_bool(v) {
            Some(b) => Some(AttrValView::B(b)),
            None => None,
        },
    }
}

/// One scanned attribute, matched against the descriptors from `j` on.
/// The first descriptor whose name matches but whose conversion fails
/// decides the error.
pub open spec fn apply_attr(
    vals: Seq<AttrValView>,
    descs: Seq<DescView>,
    j: int,
    key: Seq<char>,
    value: Seq<char>,
) -> Result<Seq<AttrValView>, ParserErrorView>
    decreases descs.len() - j,
{
    if j < 0 || j >= descs.len() {
        Ok(vals)
    } else if descs[j].name == key {
        match spec_convert(descs[j].ty, value) {
            Some(av) => apply_attr(vals.update(j, av), descs, j + 1, key, value),
            None => Err(ParserErrorView::InvalidValueForAttribute(descs[j].name)),
        }
    } else {
        apply_attr(vals, descs, j + 1, key, value)
    }
}

/// The whole scan, attribute by attribute in document order.
pub open spec fn scan_attrs(
    vals: Seq<AttrValView>,
    descs: Seq<DescView>,
    attrs: Seq<(Seq<char>, Seq<char>)>,
    k: int,
) -> Result<Seq<AttrValView>, ParserErrorView>
    decreases attrs.len() - k,
{
    if k < 0 || k >= attrs.len() {
        Ok(vals)
    } else {
        match apply_attr(vals, descs, 0, attrs[k].0, attrs[k].1) {
            Ok(v2) => scan_attrs(v2, descs, attrs, k + 1),
            Err(e) => Err(e),
        }
    }
}

/// The first required descriptor, from `j` on, whose value is still absent.
pub open spec fn first_missing(
    vals: Seq<AttrValView>,
    descs: Seq<DescView>,
    j: int,
) -> Option<ParserErrorView>
    decreases descs.len() - j,
{
    if j < 0 || j >= descs.len() {
        None
    } else if descs[j].required && vals[j] is Absent {
        Some(ParserErrorView::MissingRequiredAttribute(descs[j].name))
    } else {
        first_missing(vals, descs, j + 1)
    }
}

/// What extracting a tag's attributes against a descriptor list yields:
/// a value per descriptor, or the first error the scan meets.
pub open spec fn spec_extract(
    descs: Seq<DescView>,
    attrs: Seq<(Seq<char>, Seq<char>)>,
) -> Result<Seq<AttrValView>, ParserErrorView> {
    let init = Seq::new(descs.len(), |i: int| AttrValView::Absent);
    match scan_attrs(init, descs, attrs, 0) {
        Ok(vals) => match first_missing(vals, descs, 0) {
            Some(e) => Err(e),
            None => Ok(vals),
        },
        Err(e) => Err(e),
    }
}

/// Converts one value text to one declared type.
fn convert_attr(ty: AttrType, value: &String) -> (r: Option<AttrVal>)
    ensures
        match (r, spec_convert(ty, value@)) {
            (Some(av), Some(sv)) => av@ == sv,
            (None, None) => true,
            _ => false,
        },
{
    match ty {
        AttrType::Str => Some(AttrVal::S(value.clone())),
        AttrType::UInt => match parse_usize_str(value.as_str()) {
            Some(u) => Some(AttrVal::U(u)),
            None => None,
        },
        AttrType::U64 => match parse_u64_str(value.as_str()) {
            Some(u) => Some(AttrVal::U64(u)),
            None => None,
        },
        AttrType::Float => if is_float_str(value.as_str()) {
            Some(AttrVal::F(value.clone()))
        } else {
            None
        },
        AttrType::Bool => match parse_bool_str(value.as_str()) {
            Some(b) => Some(AttrVal::B(b)),
            None => None,
        },
    }
}

/// Scans `attrs` against `descs` and returns a value per descriptor,
/// exactly as [`spec_extract`] describes.
pub fn extract_attrs(descs: &Vec<Desc>, attrs: &Vec<(String, String)>) -> (r: Result<
    Vec<AttrVal>,
    ParserError,
>)
    ensures
        match (r, spec_extract(
            descs_view(descs@),
            attrs@.map_values(|p: (String, String)| (p.0@, p.1@)),
        )) {
            (Ok(vals), Ok(sv)) => vals_view(vals@) == sv,
            (Err(e), Err(se)) => e@ == se,
            _ => false,
        },
{
    let ghost descsv = descs_view(descs@);
    let ghost attrsv = attrs@.map_values(|p: (String, String)| (p.0@, p.1@));
    let ghost init = Seq::new(descsv.len(), |i: int| AttrValView::Absent);
    let n = descs.len();
    let mut vals: Vec<AttrVal> = Vec::new();
    while vals.len() < n
        invariant
            vals.len() <= n,
            n == descs.len(),
            forall|j: int| 0 <= j < vals.len() ==> (#[trigger] vals@[j])@ == AttrValView::Absent,
        decreases n - vals.len(),
    {
        vals.push(AttrVal::Absent);
    }
    proof {
        assert(vals_view(vals@) =~= init);
    }
    let mut k: usize = 0;
    while k < attrs.len()
        invariant
            0 <= k <= attrs.len(),
            n == descs.len(),
            vals.len() == n,
            descsv == descs_view(descs@),
            attrsv == attrs@.map_values(|p: (String, String)| (p.0@, p.1@)),
            init == Seq::new(descsv.len(), |i: int| AttrValView::Absent),
            scan_attrs(init, descsv, attrsv, 0) == scan_attrs(vals_view(vals@), descsv, attrsv, k as int),
        decreases attrs.len() - k,
    {
        let ghost round = vals_view(vals@);
        let key: &String = &attrs[k].0;
        let value: &String = &attrs[k].1;
        proof {
            assert(attrsv[k as int] == (key@, value@));
        }
        let mut j: usize = 0;
        while j < n
            invariant
                0 <= j <= n,
                n == descs.len(),
                vals.len() == n,
                k < attrs.len(),
                descsv == descs_view(descs@),
                attrsv == attrs@.map_values(|p: (String, String)| (p.0@, p.1@)),
                attrsv[k as int] == (key@, value@),
                init == Seq::new(descsv.len(), |i: int| AttrValView::Absent),
                scan_attrs(init, descsv, attrsv, 0) == scan_attrs(round, descsv, attrsv, k as int),
                apply_attr(round, descsv, 0, key@, value@) == apply_attr(
                    vals_view(vals@),
                    descsv,
                    j as int,
                    key@,
                    value@,
                ),
            decreases n - j,
        {
            proof {
                assert(descsv[j as int] == descs@[j as int]@);
            }
            let matches_name = descs[j].name == *key;
            if matches_name {
                match convert_attr(descs[j].ty, value) {
                    Some(av) => {
                        let ghost before = vals_view(vals@);
                        vals[j] = av;
                        proof {
                            assert(vals_view(vals@) =~= before.update(j as int, av@));
                        }
                    },
                    None => {
                        let e = ParserError::InvalidValueForAttribute(descs[j].name.clone());
                        proof {
                            assert(apply_attr(round, descsv, 0, key@, value@)
                                == Err::<Seq<AttrValView>, ParserErrorView>(
                                ParserErrorView::InvalidValueForAttribute(descsv[j as int].name),
                            ));
                            assert(scan_attrs(init, descsv, attrsv, 0) == Err::<
                                Seq<AttrValView>,
                                ParserErrorView,
                            >(e@));
                        }
                        return Err(e);
                    },
                }
            }
            j += 1;
        }
        proof {
            assert(apply_attr(round, descsv, 0, key@, value@) == Ok::<
                Seq<AttrValView>,
                ParserErrorView,
            >(vals_view(vals@)));
        }
        k += 1;
    }
    proof {
        assert(scan_attrs(init, descsv, attrsv, 0) == Ok::<Seq<AttrValView>, ParserErrorView>(
            vals_view(vals@),
        ));
    }
    let mut j: usize = 0;
    while j < n
        invariant
            0 <= j <= n,
            n == descs.len(),
            vals.len() == n,
            descsv == descs_view(descs@),
            attrsv == attrs@.map_values(|p: (String, String)| (p.0@, p.1@)),
            init == Seq::new(descsv.len(), |i: int| AttrValView::Absent),
            scan_attrs(init, descsv, attrsv, 0) == Ok::<Seq<AttrValView>, ParserErrorView>(
                vals_view(vals@),
            ),
            first_missing(vals_view(vals@), descsv, 0) == first_missing(
                vals_view(vals@),
                descsv,
                j as int,
            ),
        decreases n - j,
    {
        proof {
            assert(descsv[j as int] == descs@[j as int]@);
            assert(vals_view(vals@)[j as int] == vals@[j as int]@);
        }
        let absent = match &vals[j] {
            AttrVal::Absent => true,
            _ => false,
        };
        if descs[j].required && absent {
            return Err(ParserError::MissingRequiredAttribute(descs[j].name.clone()));
        }
        j += 1;
    }
    Ok(vals)
}

} // verus!
