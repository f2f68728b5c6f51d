//! The structured value carried by the header's descriptive record, and the
//! trusted boundary to the outside Python-literal parser and formatter.

use crate::text::all_ascii;
use num_traits::ToPrimitive;
use vstd::prelude::*;

verus! {

/// A value of the header's descriptive record, reduced to what this codec
/// interprets: strings, booleans, non-negative integers that fit in `usize`,
/// and tuples of such integers.  Any other literal (floats, byte strings,
/// nested containers, out-of-range integers, ...) is never looked inside by
/// the codec and is collapsed to `Other`.
#[derive(Debug)]
pub enum PyExpr {
    Str(String),
    Bool(bool),
    Int(usize),
    IntTuple(Vec<usize>),
    Other,
}

/// The mathematical value of a [`PyExpr`].
pub enum PyExprVal {
    Str(Seq<char>),
    Bool(bool),
    Int(usize),
    IntTuple(Seq<usize>),
    Other,
}

impl View for PyExpr {
    type V = PyExprVal;

    open spec fn view(&self) -> PyExprVal {
        match self {
            PyExpr::Str(s) => PyExprVal::Str(s@),
            PyExpr::Bool(b) => PyExprVal::Bool(*b),
            PyExpr::Int(n) => PyExprVal::Int(*n),
            PyExpr::IntTuple(v) => PyExprVal::IntTuple(v@),
            PyExpr::Other => PyExprVal::Other,
        }
    }
}

impl Clone for PyExpr {
    fn clone(&self) -> (res: Self)
        ensures
            res@ == self@,
    {
        match self {
            PyExpr::Str(s) => PyExpr::Str(s.clone()),
            PyExpr::Bool(b) => PyExpr::Bool(*b),
            PyExpr::Int(n) => PyExpr::Int(*n),
            PyExpr::IntTuple(v) => {
                let w = v.clone();
                assert(w@ =~= v@);
                PyExpr::IntTuple(w)
            },
            PyExpr::Other => PyExpr::Other,
        }
    }
}

/// A whole parsed descriptive record: either a dictionary of key/value pairs,
/// or any other literal (which the header codec rejects as "not a dict").
#[derive(Debug)]
pub enum PyRecord {
    Dict(Vec<(PyExpr, PyExpr)>),
    Scalar(PyExpr),
}

/// The mathematical value of a [`PyRecord`].
pub enum PyRecordVal {
    Dict(Seq<(PyExprVal, PyExprVal)>),
    Scalar(PyExprVal),
}

impl View for PyRecord {
    type V = PyRecordVal;

    open spec fn view(&self) -> PyRecordVal {
        match self {
            PyRecord::Dict(entries) => PyRecordVal::Dict(
                Seq::new(entries@.len(), |i: int| (entries@[i].0@, entries@[i].1@)),
            ),
            PyRecord::Scalar(e) => PyRecordVal::Scalar(e@),
        }
    }
}

#[verifier::external_type_specification]
#[verifier::external_body]
pub struct ExPyValue(py_literal::Value);

/// What the outside literal parser yields for a given record text, reduced to
/// the model above; `None` when the text is not a well-formed literal.
pub uninterp spec fn parsed_record(text: Seq<char>) -> Option<PyRecordVal>;

/// What the outside literal formatter produces for a given record value;
/// `None` when the value cannot be rendered (it contains a part the codec
/// does not interpret).
pub uninterp spec fn rendered_record(rec: PyRecordVal) -> Option<Seq<u8>>;

/// Reduces a parsed outside literal to the subset the codec interprets:
/// strings, booleans, `usize` integers and tuples of them; everything else
/// becomes `Other`.
///
/// Relies on `py_literal::Value`'s variants and on
/// `num_traits::ToPrimitive::to_usize` for the integer range checks.
#[verifier::external_body]
fn value_to_expr(v: &py_literal::Value) -> PyExpr {
    match v {
        py_literal::Value::String(s) => PyExpr::Str(s.clone()),
        py_literal::Value::Boolean(b) => PyExpr::Bool(*b),
        py_literal::Value::Integer(i) => i.to_usize().map_or(PyExpr::Other, PyExpr::Int),
        py_literal::Value::Tuple(items) => items.iter().map(
            |e| e.as_integer().and_then(|i| i.to_usize()),
        ).collect::<Option<Vec<usize>>>().map_or(PyExpr::Other, PyExpr::IntTuple),
        _ => PyExpr::Other,
    }
}

/// Rebuilds the outside literal for a record value the codec interprets;
/// `Other` has no rendering and yields `None`.
///
/// Relies on `py_literal::Value`'s constructors.
#[verifier::external_body]
fn expr_to_value(e: &PyExpr) -> Option<py_literal::Value> {
    match e {
        PyExpr::Str(s) => Some(py_literal::Value::String(s.clone())),
        PyExpr::Bool(b) => Some(py_literal::Value::Boolean(*b)),
        PyExpr::Int(n) => Some(py_literal::Value::Integer((*n).into())),
        PyExpr::IntTuple(ns) => Some(py_literal::Value::Tuple(
            ns.iter().map(|&n| py_literal::Value::Integer(n.into())).collect(),
        )),
        PyExpr::Other => None,
    }
}

/// Parses a descriptive-record text.
///
/// Relies on `py_literal`'s `FromStr` parser for Python literals: the result
/// depends on the text alone and is named by [`parsed_record`]; `None` is a
/// syntax error.
#[verifier::external_body]
pub(crate) fn parse_record(text: &str) -> (r: Option<PyRecord>)
    ensures
        match r {
            Some(rec) => parsed_record(text@) == Some(rec@),
            None => parsed_record(text@) is None,
        },
{
    match text.parse::<py_literal::Value>() {
        Ok(py_literal::Value::Dict(entries)) => Some(PyRecord::Dict(
            entries.iter().map(|(k, v)| (value_to_expr(k), value_to_expr(v))).collect(),
        )),
        Ok(other) => Some(PyRecord::Scalar(value_to_expr(&other))),
        Err(_) => None,
    }
}

/// Renders a record value as ASCII text.
///
/// Relies on `py_literal::Value::write_ascii`, whose output is ASCII (the
/// sibling `format_ascii` asserts exactly that of it in py_literal's source):
/// the result depends on the record value alone and is named by
/// [`rendered_record`].
#[verifier::external_body]
pub(crate) fn render_record(rec: &PyRecord) -> (r: Option<Vec<u8>>)
    ensures
        match r {
            Some(bytes) => rendered_record(rec@) == Some(bytes@) && all_ascii(bytes@),
            None => rendered_record(rec@) is None,
        },
{
    let value = match rec {
        PyRecord::Dict(entries) => py_literal::Value::Dict(
            entries.iter().map(
                |(k, v)| Some((expr_to_value(k)?, expr_to_value(v)?)),
            ).collect::<Option<Vec<_>>>()?,
        ),
        PyRecord::Scalar(e) => expr_to_value(e)?,
    };
    let mut out: Vec<u8> = Vec::new();
    match value.write_ascii(&mut out) {
        Ok(()) => Some(out),
        Err(_) => None,
    }
}

} // verus!
