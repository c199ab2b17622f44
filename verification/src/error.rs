//! The error taxonomy of the evaluation core.  Every failure is terminal for
//! the current fold or the current row; nothing is retried or swallowed.

use vstd::prelude::*;

use crate::value::ColId;
use crate::value::TableId;
use crate::value::TupleSetIdx;
use crate::value::ValS;
use crate::value::Value;
use crate::value::val_view;
use crate::value::vals_view;

verus! {

/// Error reported by the expression parser, wrapped opaquely into the
/// taxonomy below; this crate forwards it without reinterpreting it.
#[derive(Debug, PartialEq)]
pub struct ExprParseError {
    pub message: String,
}

/// A fatal evaluation failure, carrying the offending name, index or value.
#[derive(Debug, PartialEq)]
pub enum EvalError {
    /// A free variable could not be resolved during folding, or survived to
    /// row evaluation.
    UnresolvedVariable(String),
    /// A table-column reference reached row evaluation, where it can no
    /// longer be resolved.
    UnresolveTableCol(TableId, ColId),
    /// A tuple-slot reference could not be resolved against the current row.
    UnresolveTupleIdx(TupleSetIdx),
    /// Field access on a value that is neither null nor a mapping.
    FieldAccess(String, Value),
    /// Index access on a value that is neither null nor a list.
    IndexAccess(usize, Value),
    /// A parse error forwarded unchanged from the expression parser.
    Parse(ExprParseError),
    /// An operator was applied to values outside its domain.
    OpTypeMismatch(String, Vec<Value>),
    /// A specialized node was handed to constant folding: the two rewrite
    /// passes were run in the wrong order.
    OptimizedBeforePartialEval,
    /// A generic aggregate application reached row evaluation; aggregation
    /// belongs to an outer, group-aware component.
    AggregateOutsideAggregation,
    /// An operator was applied to the wrong number of arguments.
    ArityMismatch(String, usize),
}

/// Mathematical model of an [`EvalError`].
pub enum ErrS {
    UnresolvedVariable(Seq<char>),
    UnresolveTableCol(TableId, ColId),
    UnresolveTupleIdx(TupleSetIdx),
    FieldAccess(Seq<char>, ValS),
    IndexAccess(int, ValS),
    Parse(Seq<char>),
    OpTypeMismatch(Seq<char>, Seq<ValS>),
    OptimizedBeforePartialEval,
    AggregateOutsideAggregation,
    ArityMismatch(Seq<char>, int),
}

/// Model of a single error.
pub open spec fn err_view(e: EvalError) -> ErrS {
    match e {
        EvalError::UnresolvedVariable(v) => ErrS::UnresolvedVariable(v@),
        EvalError::UnresolveTableCol(t, c) => ErrS::UnresolveTableCol(t, c),
        EvalError::UnresolveTupleIdx(i) => ErrS::UnresolveTupleIdx(i),
        EvalError::FieldAccess(f, v) => ErrS::FieldAccess(f@, val_view(v)),
        EvalError::IndexAccess(i, v) => ErrS::IndexAccess(i as int, val_view(v)),
        EvalError::Parse(p) => ErrS::Parse(p.message@),
        EvalError::OpTypeMismatch(n, vs) => ErrS::OpTypeMismatch(n@, vals_view(vs@)),
        EvalError::OptimizedBeforePartialEval => ErrS::OptimizedBeforePartialEval,
        EvalError::AggregateOutsideAggregation => ErrS::AggregateOutsideAggregation,
        EvalError::ArityMismatch(n, c) => ErrS::ArityMismatch(n@, c as int),
    }
}

impl View for EvalError {
    type V = ErrS;

    open spec fn view(&self) -> ErrS {
        err_view(*self)
    }
}

/// Model of a value-or-error result.
pub open spec fn vres_view(r: Result<Value, EvalError>) -> Result<ValS, ErrS> {
    match r {
        Ok(v) => Ok(val_view(v)),
        Err(e) => Err(err_view(e)),
    }
}

} // verus!
