//! The three passes over an expression tree: constant folding (partial
//! evaluation) against a binding-resolution context, specialization of
//! built-in operators into dedicated node shapes, and per-row evaluation
//! against a tuple-resolution context.  Operators outside the built-in
//! catalog take part through a caller-supplied [`OpBehavior`]: folding
//! offers them their folded arguments, and row evaluation dispatches a
//! generic application to their own null-aware entry point.
//!
//! The passes run strictly in that order on every tree; folding reports a
//! specialized node as a fatal ordering violation.

use vstd::prelude::*;

use crate::error::ErrS;
use crate::error::EvalError;
use crate::error::vres_view;
use crate::expr::Expr;
use crate::expr::ExprS;
use crate::expr::apply_arity_ok;
use crate::expr::arity_ok;
use crate::expr::eentries_view;
use crate::expr::eseq_view;
use crate::expr::expr_dict_get;
use crate::expr::expr_dict_remove;
use crate::op::BinOp;
use crate::op::OpId;
use crate::op::OpIdS;
use crate::op::UnOp;
use crate::op::bin_name_s;
use crate::op::bin_eval_non_null;
use crate::op::bin_eval_null_aware;
use crate::op::bin_nonnull_s;
use crate::op::bin_nullaware_s;
use crate::op::is_variadic;
use crate::op::op_name_s;
use crate::op::op_side_effect;
use crate::op::sees_null;
use crate::op::un_direct_s;
use crate::op::un_eval_direct;
use crate::op::un_eval_non_null;
use crate::op::un_name_s;
use crate::op::un_nonnull_s;
use crate::value::ColId;
use crate::value::TableId;
use crate::value::TupleSetIdx;
use crate::value::ValS;
use crate::value::Value;
use crate::value::val_dict_get;
use crate::value::val_dict_remove;
use crate::value::vals_view;
use crate::value::ventries_view;

verus! {

broadcast use {
    crate::value::lemma_vals_view,
    crate::value::lemma_ventries_view,
    crate::expr::lemma_eseq_view,
    crate::expr::lemma_eentries_view,
    crate::value::lemma_val_view_variants,
    crate::expr::lemma_expr_view_variants,
};

/// The binding-resolution context consumed by constant folding.  Callers
/// implement it to resolve free variables to replacement sub-expressions and
/// to resolve (binding, field) pairs directly to table columns.
///
/// `var_rank` is the context's termination measure: a context promises, via
/// [`ctx_wf`], that a replacement tree only mentions variables of strictly
/// smaller rank than the name it replaces, so that folding cannot chase
/// resolutions forever.
pub trait ExprEvalContext where Self: Sized {
    /// Model of variable resolution: the replacement tree for a name, or
    /// nothing when the name is unresolved.  The default resolves nothing;
    /// a verified implementation overrides it.
    open spec fn resolve_spec(&self, key: Seq<char>) -> Option<ExprS> {
        None
    }

    /// Model of direct (binding, field) resolution to a table column.  The
    /// default resolves nothing; a verified implementation overrides it.
    open spec fn resolve_table_col_spec(&self, binding: Seq<char>, field: Seq<char>) -> Option<
        (TableId, ColId),
    > {
        None
    }

    /// Rank of a variable name under this context; see [`ctx_wf`].
    open spec fn var_rank(&self, key: Seq<char>) -> nat {
        0
    }

    /// Resolves a free variable to its replacement expression.
    fn resolve(&self, key: &String) -> (r: Option<Expr>)
        ensures
            match r {
                Some(e) => self.resolve_spec(key@) == Some(e@),
                None => self.resolve_spec(key@) is None,
            },
    ;

    /// Resolves a (binding, field) pair directly to a table column.
    fn resolve_table_col(&self, binding: &String, field: &String) -> (r: Option<(TableId, ColId)>)
        ensures
            r == self.resolve_table_col_spec(binding@, field@),
    ;
}

/// The row-resolution context consumed by per-row evaluation.  Callers
/// implement it to resolve a tuple-slot reference to the value it holds in
/// the current row; any failure is fatal for the row.
pub trait RowEvalContext where Self: Sized {
    /// Model of tuple-slot resolution for this context.  The default
    /// resolves nothing; a verified implementation overrides it.
    open spec fn resolve_spec(&self, idx: TupleSetIdx) -> Result<ValS, ErrS> {
        Err(ErrS::UnresolveTupleIdx(idx))
    }

    /// Resolves a tuple-slot reference against the current row.
    fn resolve(&self, idx: &TupleSetIdx) -> (r: Result<Value, EvalError>)
        ensures
            vres_view(r) == self.resolve_spec(*idx),
    ;
}

/// The empty row context: every tuple-slot lookup fails.  Suits trees that
/// folded down to constants.
impl RowEvalContext for () {
    open spec fn resolve_spec(&self, idx: TupleSetIdx) -> Result<ValS, ErrS> {
        Err(ErrS::UnresolveTupleIdx(idx))
    }

    fn resolve(&self, idx: &TupleSetIdx) -> (r: Result<Value, EvalError>) {
        Err(EvalError::UnresolveTupleIdx(*idx))
    }
}

/// The pluggable behavior of operators outside the built-in catalog: the
/// generic evaluation entry point a generic application dispatches to at row
/// time, and the constant-folding hooks folding offers folded arguments to.
/// Callers implement it per operator catalog extension; operators are keyed
/// by name.
pub trait OpBehavior where Self: Sized {
    /// Model of the operator's generic, null-aware evaluation entry point.
    /// The default refuses every operator; an implementation overrides it.
    open spec fn eval_spec(&self, name: Seq<char>, has_null: bool, args: Seq<ValS>) -> Result<
        ValS,
        ErrS,
    > {
        Err(ErrS::OpTypeMismatch(name, args))
    }

    /// Model of the operator's constant-folding hook.  The default declines
    /// every fold; an implementation overrides it.
    open spec fn fold_hook_spec(&self, name: Seq<char>, args: Seq<ExprS>) -> Result<
        Option<ExprS>,
        ErrS,
    > {
        Ok(None)
    }

    /// Model of the two-list constant-folding hook of an aggregate
    /// operator.  The default declines every fold.
    open spec fn fold_hook_agg_spec(
        &self,
        name: Seq<char>,
        a_args: Seq<ExprS>,
        args: Seq<ExprS>,
    ) -> Result<Option<ExprS>, ErrS> {
        Ok(None)
    }

    /// The operator's generic evaluation entry point: every argument value
    /// in order, and whether any of them is null, so the operator applies
    /// its own null policy.
    fn eval(&self, name: &String, has_null: bool, args: Vec<Value>) -> (r: Result<
        Value,
        EvalError,
    >)
        ensures
            vres_view(r) == self.eval_spec(name@, has_null, vals_view(args@)),
    ;

    /// The operator's constant-folding hook: a replacement expression for
    /// the folded arguments, or nothing to keep the application for row
    /// time.
    fn fold_hook(&self, name: &String, args: &Vec<Expr>) -> (r: Result<Option<Expr>, EvalError>)
        ensures
            hres_view(r) == self.fold_hook_spec(name@, eseq_view(args@)),
    ;

    /// The two-list constant-folding hook of an aggregate operator.
    fn fold_hook_agg(&self, name: &String, a_args: &Vec<Expr>, args: &Vec<Expr>) -> (r: Result<
        Option<Expr>,
        EvalError,
    >)
        ensures
            hres_view(r) == self.fold_hook_agg_spec(
                name@,
                eseq_view(a_args@),
                eseq_view(args@),
            ),
    ;
}

/// The empty catalog extension: no operator outside the built-in catalog is
/// known, so evaluation refuses each one and the hooks decline.
impl OpBehavior for () {
    fn eval(&self, name: &String, has_null: bool, args: Vec<Value>) -> (r: Result<
        Value,
        EvalError,
    >) {
        Err(EvalError::OpTypeMismatch(name.clone(), args))
    }

    fn fold_hook(&self, name: &String, args: &Vec<Expr>) -> (r: Result<Option<Expr>, EvalError>) {
        Ok(None)
    }

    fn fold_hook_agg(&self, name: &String, a_args: &Vec<Expr>, args: &Vec<Expr>) -> (r: Result<
        Option<Expr>,
        EvalError,
    >) {
        Ok(None)
    }
}

/// The larger of two ranks.
pub open spec fn nmax(a: nat, b: nat) -> nat {
    if a >= b {
        a
    } else {
        b
    }
}

/// Rank of an expression under a folding context: one more than the rank of
/// the highest-ranked variable occurring in it, and zero when none occurs.
pub open spec fn vrank<C: ExprEvalContext>(e: ExprS, ctx: &C) -> nat
    decreases e, 0int,
{
    match e {
        ExprS::Variable(n) => ctx.var_rank(n) + 1,
        ExprS::List(l) => vrank_seq(l, ctx),
        ExprS::Dict(d) => vrank_entries(d, ctx),
        ExprS::FieldAcc(_, a) => vrank(*a, ctx),
        ExprS::IdxAcc(_, a) => vrank(*a, ctx),
        ExprS::Apply(_, args) => vrank_seq(args, ctx),
        ExprS::ApplyAgg(_, a_args, args) => nmax(vrank_seq(a_args, ctx), vrank_seq(args, ctx)),
        ExprS::Bin(_, a, b) => nmax(vrank(*a, ctx), vrank(*b, ctx)),
        ExprS::Un(_, a) => vrank(*a, ctx),
        _ => 0,
    }
}

/// Rank of a sequence of expressions: the largest rank among them.
pub open spec fn vrank_seq<C: ExprEvalContext>(s: Seq<ExprS>, ctx: &C) -> nat
    decreases s, s.len(),
{
    if s.len() == 0 {
        0
    } else {
        nmax(vrank(s[0], ctx), vrank_seq(s.subrange(1, s.len() as int), ctx))
    }
}

/// Rank of a sequence of mapping entries: the largest rank among the values.
pub open spec fn vrank_entries<C: ExprEvalContext>(s: Seq<(Seq<char>, ExprS)>, ctx: &C) -> nat
    decreases s, s.len(),
{
    if s.len() == 0 {
        0
    } else {
        nmax(vrank(s[0].1, ctx), vrank_entries(s.subrange(1, s.len() as int), ctx))
    }
}

/// Well-formedness of a folding context: every replacement tree it hands out
/// ranks no higher than the name it replaces, so the rank strictly drops
/// from a variable to the variables inside its replacement.
pub open spec fn ctx_wf<C: ExprEvalContext>(ctx: &C) -> bool {
    forall|k: Seq<char>|
        (#[trigger] ctx.resolve_spec(k)) matches Some(e) ==> vrank(e, ctx) <= ctx.var_rank(k)
}

/// Every element of a sequence ranks at most the sequence.
proof fn lemma_vrank_seq_le<C: ExprEvalContext>(s: Seq<ExprS>, ctx: &C, i: int)
    requires
        0 <= i < s.len(),
    ensures
        vrank(s[i], ctx) <= vrank_seq(s, ctx),
        vrank_seq(s.subrange(1, s.len() as int), ctx) <= vrank_seq(s, ctx),
    decreases s.len(),
{
    if i > 0 {
        lemma_vrank_seq_le(s.subrange(1, s.len() as int), ctx, i - 1);
        assert(s.subrange(1, s.len() as int)[i - 1] == s[i]);
    }
}

/// Every value of a sequence of entries ranks at most the sequence.
proof fn lemma_vrank_entries_le<C: ExprEvalContext>(s: Seq<(Seq<char>, ExprS)>, ctx: &C, i: int)
    requires
        0 <= i < s.len(),
    ensures
        vrank(s[i].1, ctx) <= vrank_entries(s, ctx),
        vrank_entries(s.subrange(1, s.len() as int), ctx) <= vrank_entries(s, ctx),
    decreases s.len(),
{
    if i > 0 {
        lemma_vrank_entries_le(s.subrange(1, s.len() as int), ctx, i - 1);
        assert(s.subrange(1, s.len() as int)[i - 1] == s[i]);
    }
}

/// Constant value reported with a field- or index-access error: the value of
/// a constant node, and null for any other tree shape.
pub open spec fn expr_err_val(e: ExprS) -> ValS {
    match e {
        ExprS::Const(v) => v,
        _ => ValS::Null,
    }
}

/// The constant-folding hook of the operator catalog.  A built-in checks its
/// arity, then folds a fully constant argument list by direct evaluation
/// (with the same null policy as row evaluation) and declines otherwise; an
/// operator outside the catalog is offered the folded arguments through its
/// own hook in the caller-supplied [`OpBehavior`].
pub open spec fn fold_hook_s<O: OpBehavior>(op: OpIdS, args: Seq<ExprS>, ops: &O) -> Result<
    Option<ExprS>,
    ErrS,
> {
    match op {
        OpIdS::Other(d) => ops.fold_hook_spec(d.name, args),
        _ => if !apply_arity_ok(op, args.len() as int) {
            Err(ErrS::ArityMismatch(op_name_s(op), args.len() as int))
        } else if forall|i: int| 0 <= i < args.len() ==> (#[trigger] args[i]) is Const {
            match apply_generic_s(
                op,
                exists|i: int| 0 <= i < args.len() && (#[trigger] args[i])->Const_0 is Null,
                Seq::new(args.len(), |i: int| args[i]->Const_0),
                ops,
            ) {
                Err(e) => Err(e),
                Ok(v) => Ok(Some(ExprS::Const(v))),
            }
        } else {
            Ok(None)
        },
    }
}

/// The two-list constant-folding hook for aggregate applications: an
/// operator outside the catalog is offered both folded argument lists
/// through its own hook; the built-ins are not aggregate operators and
/// always decline.
pub open spec fn fold_hook_agg_s<O: OpBehavior>(
    op: OpIdS,
    a_args: Seq<ExprS>,
    args: Seq<ExprS>,
    ops: &O,
) -> Result<Option<ExprS>, ErrS> {
    match op {
        OpIdS::Other(d) => ops.fold_hook_agg_spec(d.name, a_args, args),
        _ => Ok(None),
    }
}

/// Left fold of the null-aware two-value entry point over the remaining
/// arguments of a variadic application.
pub open spec fn fold_nullaware_s(op: BinOp, acc: ValS, rest: Seq<ValS>) -> Result<ValS, ErrS>
    decreases rest.len(),
{
    if rest.len() == 0 {
        Ok(acc)
    } else {
        match bin_nullaware_s(op, acc, rest[0]) {
            Err(e) => Err(e),
            Ok(v) => fold_nullaware_s(op, v, rest.subrange(1, rest.len() as int)),
        }
    }
}

/// Whether any value of the sequence is null.
pub open spec fn has_null_in(vals: Seq<ValS>) -> bool {
    exists|i: int| 0 <= i < vals.len() && (#[trigger] vals[i]) is Null
}

/// The generic evaluation entry point of an operator, given the evaluated
/// arguments and whether any of them is null.  Built-in propagating binaries
/// yield null when the flag is set; the variadic built-ins run their
/// null-aware fold; is-null family operators see the value directly; an
/// operator outside the catalog dispatches to its own entry point in the
/// caller-supplied [`OpBehavior`], which applies its own null policy.
pub open spec fn apply_generic_s<O: OpBehavior>(
    op: OpIdS,
    has_null: bool,
    args: Seq<ValS>,
    ops: &O,
) -> Result<ValS, ErrS> {
    match op {
        OpIdS::Bin(b) => if is_variadic(b) {
            if args.len() < 1 {
                Err(ErrS::ArityMismatch(bin_name_s(b), args.len() as int))
            } else {
                fold_nullaware_s(b, args[0], args.subrange(1, args.len() as int))
            }
        } else {
            if args.len() != 2 {
                Err(ErrS::ArityMismatch(bin_name_s(b), args.len() as int))
            } else if has_null {
                Ok(ValS::Null)
            } else {
                bin_nonnull_s(b, args[0], args[1])
            }
        },
        OpIdS::Un(u) => if args.len() != 1 {
            Err(ErrS::ArityMismatch(un_name_s(u), args.len() as int))
        } else if sees_null(u) {
            Ok(un_direct_s(u, args[0]))
        } else if args[0] is Null {
            Ok(ValS::Null)
        } else {
            un_nonnull_s(u, args[0])
        },
        OpIdS::Other(d) => ops.eval_spec(d.name, has_null, args),
    }
}

/// What folding makes of a field access once its inner expression has been
/// folded: null stays null, a constant or tree-valued mapping is looked up
/// (absent keys default to null), a still-unresolved shape is re-wrapped for
/// row time, and anything else is a fatal field-access error.
pub open spec fn field_acc_fold_s(f: Seq<char>, inner: ExprS) -> Result<ExprS, ErrS> {
    match inner {
        ExprS::Const(v) => match v {
            ValS::Null => Ok(ExprS::Const(ValS::Null)),
            ValS::Dict(es) => Ok(ExprS::Const(val_dict_get(es, f))),
            _ => Err(ErrS::FieldAccess(f, expr_err_val(inner))),
        },
        ExprS::IdxAcc(_, _) | ExprS::FieldAcc(_, _) | ExprS::TableCol(_, _)
            | ExprS::TupleSetIdx(_) | ExprS::Apply(_, _) | ExprS::ApplyAgg(_, _, _) => Ok(
            ExprS::FieldAcc(f, Box::new(inner)),
        ),
        ExprS::Dict(es) => Ok(expr_dict_get(es, f)),
        _ => Err(ErrS::FieldAccess(f, expr_err_val(inner))),
    }
}

/// What folding makes of an index access once its inner expression has been
/// folded; symmetric to [`field_acc_fold_s`], over lists, with out-of-range
/// indexes defaulting to null.
pub open spec fn idx_acc_fold_s(i: int, inner: ExprS) -> Result<ExprS, ErrS> {
    match inner {
        ExprS::Const(v) => match v {
            ValS::Null => Ok(ExprS::Const(ValS::Null)),
            ValS::List(vs) => if i < 0 || i >= vs.len() {
                Ok(ExprS::Const(ValS::Null))
            } else {
                Ok(ExprS::Const(vs[i]))
            },
            _ => Err(ErrS::IndexAccess(i, expr_err_val(inner))),
        },
        ExprS::IdxAcc(_, _) | ExprS::FieldAcc(_, _) | ExprS::TableCol(_, _)
            | ExprS::TupleSetIdx(_) | ExprS::Apply(_, _) | ExprS::ApplyAgg(_, _, _) => Ok(
            ExprS::IdxAcc(i, Box::new(inner)),
        ),
        ExprS::List(es) => if i < 0 || i >= es.len() {
            Ok(ExprS::Const(ValS::Null))
        } else {
            Ok(es[i])
        },
        _ => Err(ErrS::IndexAccess(i, expr_err_val(inner))),
    }
}

/// Constant folding of one expression under a binding-resolution context:
/// every statically resolvable part is replaced by its resolved form, and a
/// part that can neither be resolved nor legitimately deferred is a fatal
/// error.  A specialized node is a fatal ordering violation.
pub open spec fn fold_s<C: ExprEvalContext, O: OpBehavior>(e: ExprS, ctx: &C, ops: &O) -> Result<
    ExprS,
    ErrS,
>
    decreases vrank(e, ctx), e, 0int,
    when ctx_wf(ctx)
    via fold_s_decreases::<C, O>
{
    match e {
        ExprS::Const(_) | ExprS::TableCol(_, _) | ExprS::TupleSetIdx(_) => Ok(e),
        ExprS::List(l) => match fold_seq_s(l, ctx, ops) {
            Err(er) => Err(er),
            Ok(vs) => Ok(ExprS::List(vs)),
        },
        ExprS::Dict(d) => match fold_entries_s(d, ctx, ops) {
            Err(er) => Err(er),
            Ok(es) => Ok(ExprS::Dict(es)),
        },
        ExprS::Variable(n) => match ctx.resolve_spec(n) {
            Some(r) => Ok(r),
            None => Err(ErrS::UnresolvedVariable(n)),
        },
        ExprS::FieldAcc(f, a) => match *a {
            ExprS::Variable(n) => match ctx.resolve_table_col_spec(n, f) {
                Some((tid, cid)) => Ok(ExprS::TableCol(tid, cid)),
                None => match ctx.resolve_spec(n) {
                    None => Err(ErrS::UnresolvedVariable(n)),
                    Some(r) => match fold_s(r, ctx, ops) {
                        Err(er) => Err(er),
                        Ok(inner) => field_acc_fold_s(f, inner),
                    },
                },
            },
            _ => match fold_s(*a, ctx, ops) {
                Err(er) => Err(er),
                Ok(inner) => field_acc_fold_s(f, inner),
            },
        },
        ExprS::IdxAcc(i, a) => match fold_s(*a, ctx, ops) {
            Err(er) => Err(er),
            Ok(inner) => idx_acc_fold_s(i, inner),
        },
        ExprS::Apply(op, args) => match fold_seq_s(args, ctx, ops) {
            Err(er) => Err(er),
            Ok(fargs) => if op_side_effect(op) {
                Ok(ExprS::Apply(op, fargs))
            } else {
                match fold_hook_s(op, fargs, ops) {
                    Err(er) => Err(er),
                    Ok(Some(r)) => Ok(r),
                    Ok(None) => Ok(ExprS::Apply(op, fargs)),
                }
            },
        },
        ExprS::ApplyAgg(op, a_args, args) => match fold_seq_s(a_args, ctx, ops) {
            Err(er) => Err(er),
            Ok(fa) => match fold_seq_s(args, ctx, ops) {
                Err(er) => Err(er),
                Ok(fr) => if op_side_effect(op) {
                    Ok(ExprS::ApplyAgg(op, fa, fr))
                } else {
                    match fold_hook_agg_s(op, fa, fr, ops) {
                        Err(er) => Err(er),
                        Ok(Some(r)) => Ok(r),
                        Ok(None) => Ok(ExprS::ApplyAgg(op, fa, fr)),
                    }
                },
            },
        },
        ExprS::Bin(_, _, _) | ExprS::Un(_, _) => Err(ErrS::OptimizedBeforePartialEval),
    }
}

#[via_fn]
proof fn fold_s_decreases<C: ExprEvalContext, O: OpBehavior>(e: ExprS, ctx: &C, ops: &O) {
    if let ExprS::FieldAcc(f, a) = e {
        if let ExprS::Variable(n) = *a {
            assert(vrank(*a, ctx) == ctx.var_rank(n) + 1);
            assert(vrank(e, ctx) == ctx.var_rank(n) + 1);
            if let Some(r) = ctx.resolve_spec(n) {
                assert(vrank(r, ctx) <= ctx.var_rank(n));
            }
        }
    }
}

/// Folds every expression of a sequence in order, propagating the first
/// error.
pub open spec fn fold_seq_s<C: ExprEvalContext, O: OpBehavior>(
    s: Seq<ExprS>,
    ctx: &C,
    ops: &O,
) -> Result<Seq<ExprS>, ErrS>
    decreases vrank_seq(s, ctx), s, s.len(),
    when ctx_wf(ctx)
{
    if s.len() == 0 {
        Ok(Seq::empty())
    } else {
        match fold_s(s[0], ctx, ops) {
            Err(er) => Err(er),
            Ok(v) => match fold_seq_s(s.subrange(1, s.len() as int), ctx, ops) {
                Err(er) => Err(er),
                Ok(vs) => Ok(seq![v] + vs),
            },
        }
    }
}

/// Folds every value of a sequence of mapping entries in order, keeping the
/// keys and propagating the first error.
pub open spec fn fold_entries_s<C: ExprEvalContext, O: OpBehavior>(
    s: Seq<(Seq<char>, ExprS)>,
    ctx: &C,
    ops: &O,
) -> Result<Seq<(Seq<char>, ExprS)>, ErrS>
    decreases vrank_entries(s, ctx), s, s.len(),
    when ctx_wf(ctx)
{
    if s.len() == 0 {
        Ok(Seq::empty())
    } else {
        match fold_s(s[0].1, ctx, ops) {
            Err(er) => Err(er),
            Ok(v) => match fold_entries_s(s.subrange(1, s.len() as int), ctx, ops) {
                Err(er) => Err(er),
                Ok(vs) => Ok(seq![(s[0].0, v)] + vs),
            },
        }
    }
}

/// Specialization of one expression: a generic application of a built-in
/// operator becomes the dedicated node shape for that operator, an n-ary
/// application of a variadic built-in becomes a left-associated binary
/// chain, an unknown operator keeps its generic application, and containers
/// and accesses recurse structurally.  Leaves and nodes that are already
/// specialized are returned unchanged.
pub open spec fn optimize_s(e: ExprS) -> ExprS
    decreases e, 0int,
    via optimize_s_decreases
{
    match e {
        ExprS::List(l) => ExprS::List(opt_seq_s(l)),
        ExprS::Dict(d) => ExprS::Dict(opt_entries_s(d)),
        ExprS::FieldAcc(f, a) => ExprS::FieldAcc(f, Box::new(optimize_s(*a))),
        ExprS::IdxAcc(i, a) => ExprS::IdxAcc(i, Box::new(optimize_s(*a))),
        ExprS::Apply(op, args) => match op {
            OpIdS::Bin(b) => if is_variadic(b) {
                if args.len() < 1 {
                    ExprS::Apply(op, opt_seq_s(args))
                } else {
                    opt_chain_s(b, optimize_s(args[0]), args.subrange(1, args.len() as int))
                }
            } else {
                if args.len() == 2 {
                    ExprS::Bin(
                        b,
                        Box::new(optimize_s(args[0])),
                        Box::new(optimize_s(args[1])),
                    )
                } else {
                    ExprS::Apply(op, opt_seq_s(args))
                }
            },
            OpIdS::Un(u) => if args.len() >= 1 {
                ExprS::Un(u, Box::new(optimize_s(args[0])))
            } else {
                ExprS::Apply(op, opt_seq_s(args))
            },
            OpIdS::Other(_) => ExprS::Apply(op, opt_seq_s(args)),
        },
        ExprS::ApplyAgg(op, a_args, args) => ExprS::ApplyAgg(
            op,
            opt_seq_s(a_args),
            opt_seq_s(args),
        ),
        _ => e,
    }
}

#[via_fn]
proof fn optimize_s_decreases(e: ExprS) {
    if let ExprS::Apply(op, args) = e {
        assert(decreases_to!(e => args));
        if args.len() >= 1 {
            assert(decreases_to!(args => args.subrange(1, args.len() as int)));
        }
    }
}

/// Specializes every expression of a sequence.
pub open spec fn opt_seq_s(s: Seq<ExprS>) -> Seq<ExprS>
    decreases s, s.len(),
{
    if s.len() == 0 {
        Seq::empty()
    } else {
        seq![optimize_s(s[0])] + opt_seq_s(s.subrange(1, s.len() as int))
    }
}

/// Specializes every value of a sequence of mapping entries.
pub open spec fn opt_entries_s(s: Seq<(Seq<char>, ExprS)>) -> Seq<(Seq<char>, ExprS)>
    decreases s, s.len(),
{
    if s.len() == 0 {
        Seq::empty()
    } else {
        seq![(s[0].0, optimize_s(s[0].1))] + opt_entries_s(s.subrange(1, s.len() as int))
    }
}

/// Left-folds the remaining arguments of a variadic built-in into a chain
/// of specialized binary nodes.
pub open spec fn opt_chain_s(op: BinOp, acc: ExprS, rest: Seq<ExprS>) -> ExprS
    decreases rest, rest.len(),
{
    if rest.len() == 0 {
        acc
    } else {
        opt_chain_s(
            op,
            ExprS::Bin(op, Box::new(acc), Box::new(optimize_s(rest[0]))),
            rest.subrange(1, rest.len() as int),
        )
    }
}

/// Row evaluation of one expression under a row-resolution context,
/// producing a concrete value or a fatal error.
pub open spec fn row_eval_s<C: RowEvalContext, O: OpBehavior>(e: ExprS, ctx: &C, ops: &O) -> Result<
    ValS,
    ErrS,
>
    decreases e, 0int,
{
    match e {
        ExprS::Const(v) => Ok(v),
        ExprS::Variable(n) => Err(ErrS::UnresolvedVariable(n)),
        ExprS::TableCol(t, c) => Err(ErrS::UnresolveTableCol(t, c)),
        ExprS::TupleSetIdx(i) => ctx.resolve_spec(i),
        ExprS::List(l) => match eval_from_s(l, 0, ctx, ops) {
            Err(er) => Err(er),
            Ok(vs) => Ok(ValS::List(vs)),
        },
        ExprS::Dict(d) => match eval_entries_from_s(d, 0, ctx, ops) {
            Err(er) => Err(er),
            Ok(es) => Ok(ValS::Dict(es)),
        },
        ExprS::Apply(op, args) => match eval_from_s(args, 0, ctx, ops) {
            Err(er) => Err(er),
            Ok(vals) => apply_generic_s(op, has_null_in(vals), vals, ops),
        },
        ExprS::ApplyAgg(_, _, _) => Err(ErrS::AggregateOutsideAggregation),
        ExprS::FieldAcc(f, a) => match row_eval_s(*a, ctx, ops) {
            Err(er) => Err(er),
            Ok(v) => match v {
                ValS::Null => Ok(ValS::Null),
                ValS::Dict(es) => Ok(val_dict_get(es, f)),
                _ => Err(ErrS::FieldAccess(f, v)),
            },
        },
        ExprS::IdxAcc(i, a) => match row_eval_s(*a, ctx, ops) {
            Err(er) => Err(er),
            Ok(v) => match v {
                ValS::Null => Ok(ValS::Null),
                ValS::List(vs) => if i < 0 || i >= vs.len() {
                    Ok(ValS::Null)
                } else {
                    Ok(vs[i])
                },
                _ => Err(ErrS::IndexAccess(i, v)),
            },
        },
        ExprS::Bin(b, l, r) => match row_eval_s(*l, ctx, ops) {
            Err(er) => Err(er),
            Ok(lv) => match row_eval_s(*r, ctx, ops) {
                Err(er) => Err(er),
                Ok(rv) => if is_variadic(b) {
                    bin_nullaware_s(b, lv, rv)
                } else if lv is Null || rv is Null {
                    Ok(ValS::Null)
                } else {
                    bin_nonnull_s(b, lv, rv)
                },
            },
        },
        ExprS::Un(u, a) => match row_eval_s(*a, ctx, ops) {
            Err(er) => Err(er),
            Ok(v) => if sees_null(u) {
                Ok(un_direct_s(u, v))
            } else if v is Null {
                Ok(ValS::Null)
            } else {
                un_nonnull_s(u, v)
            },
        },
    }
}

/// Evaluates the expressions of a sequence from position `i` on, in order,
/// propagating the first error.
pub open spec fn eval_from_s<C: RowEvalContext, O: OpBehavior>(
    s: Seq<ExprS>,
    i: int,
    ctx: &C,
    ops: &O,
) -> Result<Seq<ValS>, ErrS>
    decreases s, s.len() - i,
{
    if i < 0 || i >= s.len() {
        Ok(Seq::empty())
    } else {
        match row_eval_s(s[i], ctx, ops) {
            Err(er) => Err(er),
            Ok(v) => match eval_from_s(s, i + 1, ctx, ops) {
                Err(er) => Err(er),
                Ok(vs) => Ok(seq![v] + vs),
            },
        }
    }
}

/// Evaluates the values of a sequence of mapping entries from position `i`
/// on, keeping the keys and propagating the first error.
pub open spec fn eval_entries_from_s<C: RowEvalContext, O: OpBehavior>(
    s: Seq<(Seq<char>, ExprS)>,
    i: int,
    ctx: &C,
    ops: &O,
) -> Result<Seq<(Seq<char>, ValS)>, ErrS>
    decreases s, s.len() - i,
{
    if i < 0 || i >= s.len() {
        Ok(Seq::empty())
    } else {
        match row_eval_s(s[i].1, ctx, ops) {
            Err(er) => Err(er),
            Ok(v) => match eval_entries_from_s(s, i + 1, ctx, ops) {
                Err(er) => Err(er),
                Ok(vs) => Ok(seq![(s[i].0, v)] + vs),
            },
        }
    }
}

/// Model of an expression-or-error result.
pub open spec fn eres_view(r: Result<Expr, EvalError>) -> Result<ExprS, ErrS> {
    match r {
        Ok(e) => Ok(e@),
        Err(er) => Err(er@),
    }
}

/// Model of an expression-vector-or-error result.
pub open spec fn evres_view(r: Result<Vec<Expr>, EvalError>) -> Result<Seq<ExprS>, ErrS> {
    match r {
        Ok(v) => Ok(eseq_view(v@)),
        Err(er) => Err(er@),
    }
}

/// Model of an entry-vector-or-error result over expressions.
pub open spec fn eeres_view(r: Result<Vec<(String, Expr)>, EvalError>) -> Result<
    Seq<(Seq<char>, ExprS)>,
    ErrS,
> {
    match r {
        Ok(v) => Ok(eentries_view(v@)),
        Err(er) => Err(er@),
    }
}

/// Model of a value-vector-or-error result.
pub open spec fn vvres_view(r: Result<Vec<Value>, EvalError>) -> Result<Seq<ValS>, ErrS> {
    match r {
        Ok(v) => Ok(vals_view(v@)),
        Err(er) => Err(er@),
    }
}

/// Model of an entry-vector-or-error result over values.
pub open spec fn veres_view(r: Result<Vec<(String, Value)>, EvalError>) -> Result<
    Seq<(Seq<char>, ValS)>,
    ErrS,
> {
    match r {
        Ok(v) => Ok(ventries_view(v@)),
        Err(er) => Err(er@),
    }
}

/// Model of a hook result.
pub open spec fn hres_view(r: Result<Option<Expr>, EvalError>) -> Result<Option<ExprS>, ErrS> {
    match r {
        Ok(Some(e)) => Ok(Some(e@)),
        Ok(None) => Ok(None),
        Err(er) => Err(er@),
    }
}

/// Whether any value of the vector is null; the null-seen flag handed to the
/// generic evaluation entry point.
fn any_null(vals: &Vec<Value>) -> (r: bool)
    ensures
        r == has_null_in(vals_view(vals@)),
{
    let mut i: usize = 0;
    let mut seen = false;
    while i < vals.len()
        invariant
            i <= vals@.len(),
            seen == exists|j: int|
                0 <= j < i as int && (#[trigger] vals_view(vals@)[j]) is Null,
        decreases vals@.len() - i,
    {
        proof {
            assert(vals_view(vals@)[i as int] == crate::value::val_view(vals@[i as int]));
        }
        if matches!(&vals[i], Value::Null) {
            seen = true;
        }
        i += 1;
    }
    seen
}

/// Runs the left fold of the null-aware entry point over the remaining
/// arguments of a variadic application.
fn run_nullaware(op: BinOp, acc: Value, rest: Vec<Value>) -> (r: Result<Value, EvalError>)
    ensures
        vres_view(r) == fold_nullaware_s(op, acc@, vals_view(rest@)),
    decreases rest@.len(),
{
    let ghost orig = rest@;
    let mut rest = rest;
    if rest.len() == 0 {
        Ok(acc)
    } else {
        let nxt = rest.remove(0);
        proof {
            assert(rest@ =~= orig.subrange(1, orig.len() as int));
            assert(vals_view(rest@) =~= vals_view(orig).subrange(
                1,
                vals_view(orig).len() as int,
            ));
        }
        match bin_eval_null_aware(op, acc, nxt) {
            Err(e) => Err(e),
            Ok(v) => run_nullaware(op, v, rest),
        }
    }
}

/// The generic evaluation entry point: executable twin of
/// [`apply_generic_s`].
pub fn apply_generic<O: OpBehavior>(
    op: &OpId,
    has_null: bool,
    args: Vec<Value>,
    ops: &O,
) -> (r: Result<Value, EvalError>)
    ensures
        vres_view(r) == apply_generic_s(op@, has_null, vals_view(args@), ops),
{
    let ghost gargs = vals_view(args@);
    match op {
        OpId::Bin(b) => {
            let b = *b;
            if b.variadic() {
                if args.len() == 0 {
                    Err(EvalError::ArityMismatch(b.name(), 0))
                } else {
                    let mut rest = args;
                    let first = rest.remove(0);
                    proof {
                        assert(rest@ =~= args@.subrange(1, args@.len() as int));
                        assert(vals_view(rest@) =~= gargs.subrange(1, gargs.len() as int));
                    }
                    run_nullaware(b, first, rest)
                }
            } else {
                if args.len() != 2 {
                    Err(EvalError::ArityMismatch(b.name(), args.len()))
                } else if has_null {
                    Ok(Value::Null)
                } else {
                    let mut rest = args;
                    let x = rest.remove(0);
                    let y = rest.remove(0);
                    bin_eval_non_null(b, x, y)
                }
            }
        },
        OpId::Un(u) => {
            let u = *u;
            if args.len() != 1 {
                Err(EvalError::ArityMismatch(u.name(), args.len()))
            } else {
                let mut rest = args;
                let x = rest.remove(0);
                if u.null_seeing() {
                    Ok(un_eval_direct(u, x))
                } else if matches!(&x, Value::Null) {
                    Ok(Value::Null)
                } else {
                    un_eval_non_null(u, x)
                }
            }
        },
        OpId::Other(d) => ops.eval(&d.name, has_null, args),
    }
}

/// The constant-folding hook of the catalog: executable twin of
/// [`fold_hook_s`].
fn fold_hook<O: OpBehavior>(op: &OpId, args: &Vec<Expr>, ops: &O) -> (r: Result<
    Option<Expr>,
    EvalError,
>)
    ensures
        hres_view(r) == fold_hook_s(op@, eseq_view(args@), ops),
{
    let ghost gargs = eseq_view(args@);
    if let OpId::Other(d) = op {
        return ops.fold_hook(&d.name, args);
    }
    proof {
        assert(gargs.len() == args@.len());
    }
    let n = args.len();
    let arity_fits = match op {
        OpId::Bin(b) => if b.variadic() {
            n >= 1
        } else {
            n == 2
        },
        OpId::Un(_) => n == 1,
        OpId::Other(_) => true,
    };
    if !arity_fits {
        let name = match op {
            OpId::Bin(b) => b.name(),
            OpId::Un(u) => u.name(),
            OpId::Other(d) => d.name.clone(),
        };
        return Err(EvalError::ArityMismatch(name, n));
    }
    let mut i: usize = 0;
    let mut all_const = true;
    while i < n
        invariant
            n == args@.len(),
            gargs == eseq_view(args@),
            gargs.len() == n as int,
            i <= n,
            all_const <==> forall|j: int| 0 <= j < i as int ==> (#[trigger] gargs[j]) is Const,
        decreases n - i,
    {
        proof {
            assert(gargs[i as int] == crate::expr::expr_view(args@[i as int]));
        }
        if !matches!(&args[i], Expr::Const(_)) {
            all_const = false;
        }
        i += 1;
    }
    if !all_const {
        return Ok(None);
    }
    let mut vals: Vec<Value> = Vec::new();
    let mut has_null = false;
    let mut k: usize = 0;
    while k < n
        invariant
            n == args@.len(),
            gargs == eseq_view(args@),
            gargs.len() == n as int,
            k <= n,
            forall|j: int| 0 <= j < n as int ==> (#[trigger] gargs[j]) is Const,
            vals@.len() == k as int,
            forall|j: int| 0 <= j < k as int ==> vals_view(vals@)[j] == (#[trigger] gargs[j])->Const_0,
            has_null <==> exists|j: int| 0 <= j < k as int && (#[trigger] gargs[j])->Const_0 is Null,
        decreases n - k,
    {
        proof {
            assert(gargs[k as int] == crate::expr::expr_view(args@[k as int]));
        }
        match &args[k] {
            Expr::Const(v) => {
                if matches!(v, Value::Null) {
                    has_null = true;
                }
                vals.push(v.duplicate());
                proof {
                    assert(vals_view(vals@)[k as int] == crate::value::val_view(
                        vals@[k as int],
                    ));
                }
            },
            _ => {
                proof {
                    assert(false);
                }
            },
        }
        k += 1;
    }
    proof {
        assert(vals_view(vals@) =~= Seq::new(gargs.len(), |j: int| gargs[j]->Const_0));
    }
    match apply_generic(op, has_null, vals, ops) {
        Err(e) => Err(e),
        Ok(v) => Ok(Some(Expr::Const(v))),
    }
}

/// The two-list constant-folding hook for aggregate applications:
/// executable twin of [`fold_hook_agg_s`].
fn fold_hook_agg<O: OpBehavior>(
    op: &OpId,
    a_args: &Vec<Expr>,
    args: &Vec<Expr>,
    ops: &O,
) -> (r: Result<Option<Expr>, EvalError>)
    ensures
        hres_view(r) == fold_hook_agg_s(op@, eseq_view(a_args@), eseq_view(args@), ops),
{
    match op {
        OpId::Other(d) => ops.fold_hook_agg(&d.name, a_args, args),
        _ => Ok(None),
    }
}

/// Constant value reported with a fold-time access error: executable twin of
/// [`expr_err_val`].
fn expr_err_value(e: &Expr) -> (r: Value)
    ensures
        r@ == expr_err_val(e@),
{
    match e {
        Expr::Const(v) => v.duplicate(),
        _ => Value::Null,
    }
}

/// Finishes folding a field access: executable twin of
/// [`field_acc_fold_s`].
fn apply_field_access(f: String, inner: Expr) -> (r: Result<Expr, EvalError>)
    ensures
        eres_view(r) == field_acc_fold_s(f@, inner@),
{
    let ghost iv = inner@;
    match inner {
        Expr::Const(v) => match v {
            Value::Null => Ok(Expr::Const(Value::Null)),
            Value::Dict(d) => {
                proof {
                    assert(iv == ExprS::Const(ValS::Dict(ventries_view(d@))));
                }
                Ok(Expr::Const(val_dict_remove(d, &f)))
            },
            v => Err(EvalError::FieldAccess(f, v)),
        },
        Expr::Dict(d) => {
            proof {
                assert(iv == ExprS::Dict(eentries_view(d@)));
            }
            Ok(expr_dict_remove(d, &f))
        },
        inner @ (Expr::IdxAcc(_, _) | Expr::FieldAcc(_, _) | Expr::TableCol(_, _)
            | Expr::TupleSetIdx(_) | Expr::Apply(_, _) | Expr::ApplyAgg(_, _, _)) => Ok(
            Expr::FieldAcc(f, Box::new(inner)),
        ),
        inner => {
            let v = expr_err_value(&inner);
            Err(EvalError::FieldAccess(f, v))
        },
    }
}

/// Finishes folding an index access: executable twin of [`idx_acc_fold_s`].
fn apply_idx_access(i: usize, inner: Expr) -> (r: Result<Expr, EvalError>)
    ensures
        eres_view(r) == idx_acc_fold_s(i as int, inner@),
{
    let ghost iv = inner@;
    match inner {
        Expr::Const(v) => match v {
            Value::Null => Ok(Expr::Const(Value::Null)),
            Value::List(mut l) => {
                proof {
                    assert(iv == ExprS::Const(ValS::List(vals_view(l@))));
                    assert(vals_view(l@).len() == l@.len());
                }
                if i >= l.len() {
                    Ok(Expr::Const(Value::Null))
                } else {
                    proof {
                        assert(vals_view(l@)[i as int] == crate::value::val_view(
                            l@[i as int],
                        ));
                    }
                    Ok(Expr::Const(l.remove(i)))
                }
            },
            v => Err(EvalError::IndexAccess(i, v)),
        },
        Expr::List(mut l) => {
            proof {
                assert(iv == ExprS::List(eseq_view(l@)));
                assert(eseq_view(l@).len() == l@.len());
            }
            if i >= l.len() {
                Ok(Expr::Const(Value::Null))
            } else {
                proof {
                    assert(eseq_view(l@)[i as int] == crate::expr::expr_view(l@[i as int]));
                }
                Ok(l.remove(i))
            }
        },
        inner @ (Expr::IdxAcc(_, _) | Expr::FieldAcc(_, _) | Expr::TableCol(_, _)
            | Expr::TupleSetIdx(_) | Expr::Apply(_, _) | Expr::ApplyAgg(_, _, _)) => Ok(
            Expr::IdxAcc(i, Box::new(inner)),
        ),
        inner => {
            let v = expr_err_value(&inner);
            Err(EvalError::IndexAccess(i, v))
        },
    }
}

/// Folds every expression of a vector in order: executable twin of
/// [`fold_seq_s`].
fn fold_vec<C: ExprEvalContext, O: OpBehavior>(v: Vec<Expr>, ctx: &C, ops: &O) -> (res: Result<
    Vec<Expr>,
    EvalError,
>)
    requires
        ctx_wf(ctx),
    ensures
        evres_view(res) == fold_seq_s(eseq_view(v@), ctx, ops),
    decreases vrank_seq(eseq_view(v@), ctx), eseq_view(v@), 1int,
{
    let ghost s = eseq_view(v@);
    let mut v = v;
    if v.len() == 0 {
        let out: Vec<Expr> = Vec::new();
        proof {
            assert(eseq_view(out@) =~= Seq::<ExprS>::empty());
        }
        Ok(out)
    } else {
        let first = v.remove(0);
        proof {
            assert(eseq_view(v@) =~= s.subrange(1, s.len() as int));
            lemma_vrank_seq_le(s, ctx, 0);
        }
        match first.partial_eval(ctx, ops) {
            Err(e) => Err(e),
            Ok(f) => match fold_vec(v, ctx, ops) {
                Err(e) => Err(e),
                Ok(mut rest) => {
                    let ghost rests = eseq_view(rest@);
                    rest.insert(0, f);
                    proof {
                        assert(eseq_view(rest@) =~= seq![f@] + rests);
                    }
                    Ok(rest)
                },
            },
        }
    }
}

/// Folds every value of an entry vector in order, keeping the keys:
/// executable twin of [`fold_entries_s`].
fn fold_entries<C: ExprEvalContext, O: OpBehavior>(
    v: Vec<(String, Expr)>,
    ctx: &C,
    ops: &O,
) -> (res: Result<Vec<(String, Expr)>, EvalError>)
    requires
        ctx_wf(ctx),
    ensures
        eeres_view(res) == fold_entries_s(eentries_view(v@), ctx, ops),
    decreases vrank_entries(eentries_view(v@), ctx), eentries_view(v@), 1int,
{
    let ghost s = eentries_view(v@);
    let mut v = v;
    if v.len() == 0 {
        let out: Vec<(String, Expr)> = Vec::new();
        proof {
            assert(eentries_view(out@) =~= Seq::<(Seq<char>, ExprS)>::empty());
        }
        Ok(out)
    } else {
        let (key, first) = v.remove(0);
        proof {
            assert(eentries_view(v@) =~= s.subrange(1, s.len() as int));
            lemma_vrank_entries_le(s, ctx, 0);
        }
        match first.partial_eval(ctx, ops) {
            Err(e) => Err(e),
            Ok(f) => match fold_entries(v, ctx, ops) {
                Err(e) => Err(e),
                Ok(mut rest) => {
                    let ghost rests = eentries_view(rest@);
                    rest.insert(0, (key, f));
                    proof {
                        assert(eentries_view(rest@) =~= seq![(s[0].0, f@)] + rests);
                    }
                    Ok(rest)
                },
            },
        }
    }
}

impl Expr {
    /// Constant folding (partial evaluation) of this tree under a
    /// binding-resolution context.  Every statically resolvable part is
    /// replaced by its resolved form; an unresolvable part that is not a
    /// legitimately deferred form is a fatal error, and a specialized node
    /// is a fatal ordering violation.
    pub fn partial_eval<C: ExprEvalContext, O: OpBehavior>(self, ctx: &C, ops: &O) -> (res:
        Result<Expr, EvalError>)
        requires
            ctx_wf(ctx),
        ensures
            eres_view(res) == fold_s(self@, ctx, ops),
            (crate::expr::expr_wf(self@) && crate::laws::ctx_resolves_wf(ctx)
                && crate::laws::ops_preserve_wf(ops)) ==> (res matches Ok(r)
                ==> crate::expr::expr_wf(r@)),
        decreases vrank(self@, ctx), self@, 0int,
    {
        proof {
            if crate::expr::expr_wf(self@) && crate::laws::ctx_resolves_wf(ctx)
                && crate::laws::ops_preserve_wf(ops) {
                crate::laws::lemma_fold_preserves_wf(self@, ctx, ops);
            }
        }
        match self {
            v @ (Expr::Const(_) | Expr::TableCol(_, _) | Expr::TupleSetIdx(_)) => Ok(v),
            Expr::List(l) => match fold_vec(l, ctx, ops) {
                Err(e) => Err(e),
                Ok(vs) => Ok(Expr::List(vs)),
            },
            Expr::Dict(d) => match fold_entries(d, ctx, ops) {
                Err(e) => Err(e),
                Ok(es) => Ok(Expr::Dict(es)),
            },
            Expr::Variable(var) => match ctx.resolve(&var) {
                Some(r) => Ok(r),
                None => Err(EvalError::UnresolvedVariable(var)),
            },
            Expr::FieldAcc(f, arg) => {
                let ghost innerv = arg@;
                proof {
                    assert(self@ == ExprS::FieldAcc(f@, Box::new(innerv)));
                    assert(vrank(self@, ctx) == vrank(innerv, ctx));
                }
                let inner_res: Result<Expr, EvalError> = match *arg {
                    Expr::Variable(var) => {
                        proof {
                            assert(innerv == ExprS::Variable(var@));
                        }
                        match ctx.resolve_table_col(&var, &f) {
                            Some((tid, cid)) => {
                                return Ok(Expr::TableCol(tid, cid));
                            },
                            None => match ctx.resolve(&var) {
                                None => Err(EvalError::UnresolvedVariable(var)),
                                Some(r) => {
                                    proof {
                                        assert(vrank(innerv, ctx) == ctx.var_rank(var@) + 1);
                                        assert(vrank(r@, ctx) <= ctx.var_rank(var@));
                                    }
                                    r.partial_eval(ctx, ops)
                                },
                            },
                        }
                    },
                    other => {
                        proof {
                            assert(vrank(self@, ctx) == vrank(other@, ctx));
                        }
                        other.partial_eval(ctx, ops)
                    },
                };
                match inner_res {
                    Err(e) => Err(e),
                    Ok(inner) => apply_field_access(f, inner),
                }
            },
            Expr::IdxAcc(i, arg) => match arg.partial_eval(ctx, ops) {
                Err(e) => Err(e),
                Ok(inner) => apply_idx_access(i, inner),
            },
            Expr::Apply(op, args) => match fold_vec(args, ctx, ops) {
                Err(e) => Err(e),
                Ok(fargs) => {
                    let side_effect = match &op {
                        OpId::Other(d) => d.has_side_effect,
                        _ => false,
                    };
                    if side_effect {
                        Ok(Expr::Apply(op, fargs))
                    } else {
                        match fold_hook(&op, &fargs, ops) {
                            Err(e) => Err(e),
                            Ok(Some(r)) => Ok(r),
                            Ok(None) => Ok(Expr::Apply(op, fargs)),
                        }
                    }
                },
            },
            Expr::ApplyAgg(op, a_args, args) => match fold_vec(a_args, ctx, ops) {
                Err(e) => Err(e),
                Ok(fa) => match fold_vec(args, ctx, ops) {
                    Err(e) => Err(e),
                    Ok(fr) => {
                        let side_effect = match &op {
                            OpId::Other(d) => d.has_side_effect,
                            _ => false,
                        };
                        if side_effect {
                            Ok(Expr::ApplyAgg(op, fa, fr))
                        } else {
                            match fold_hook_agg(&op, &fa, &fr, ops) {
                                Err(e) => Err(e),
                                Ok(Some(r)) => Ok(r),
                                Ok(None) => Ok(Expr::ApplyAgg(op, fa, fr)),
                            }
                        }
                    },
                },
            },
            Expr::Bin(_, _) | Expr::Un(_, _) => Err(EvalError::OptimizedBeforePartialEval),
        }
    }

    /// Specialization (operator optimization) of this tree: rewrites generic
    /// applications of built-in operators into dedicated node shapes,
    /// desugaring n-ary variadic applications into left-associated binary
    /// chains, and recurses structurally everywhere else.
    pub fn optimize_ops(self) -> (res: Expr)
        requires
            arity_ok(self@),
        ensures
            res@ == optimize_s(self@),
            crate::expr::expr_wf(self@) ==> crate::expr::expr_wf(res@),
        decreases self@,
    {
        proof {
            if crate::expr::expr_wf(self@) {
                crate::laws::lemma_optimize_preserves_wf(self@);
            }
        }
        match self {
            Expr::List(l) => {
                proof {
                    assert(self@ == ExprS::List(eseq_view(l@)));
                }
                Expr::List(opt_vec(l))
            },
            Expr::Dict(d) => {
                proof {
                    assert(self@ == ExprS::Dict(eentries_view(d@)));
                }
                Expr::Dict(opt_entries(d))
            },
            Expr::FieldAcc(f, arg) => {
                proof {
                    assert(self@ == ExprS::FieldAcc(f@, Box::new(arg@)));
                }
                Expr::FieldAcc(f, Box::new((*arg).optimize_ops()))
            },
            Expr::IdxAcc(i, arg) => {
                proof {
                    assert(self@ == ExprS::IdxAcc(i as int, Box::new(arg@)));
                }
                Expr::IdxAcc(i, Box::new((*arg).optimize_ops()))
            },
            Expr::Apply(op, args) => {
                let ghost argsv = eseq_view(args@);
                proof {
                    assert(self@ == ExprS::Apply(op@, argsv));
                    assert(decreases_to!(self@ => argsv));
                }
                match op {
                    OpId::Bin(b) => if b.variadic() {
                        let mut rest = args;
                        let first = rest.remove(0);
                        proof {
                            assert(argsv[0] == first@);
                            assert(decreases_to!(argsv => argsv[0]));
                            assert(eseq_view(rest@) =~= argsv.subrange(1, argsv.len() as int));
                            assert(decreases_to!(argsv => argsv.subrange(
                                1,
                                argsv.len() as int,
                            )));
                        }
                        let facc = first.optimize_ops();
                        run_opt_chain(b, facc, rest)
                    } else {
                        let (x, y) = extract_optimized_bin_args(args);
                        Expr::Bin(b, Box::new((x, y)))
                    },
                    OpId::Un(u) => {
                        let x = extract_optimized_u_args(args);
                        Expr::Un(u, Box::new(x))
                    },
                    OpId::Other(d) => Expr::Apply(OpId::Other(d), opt_vec(args)),
                }
            },
            Expr::ApplyAgg(op, a_args, args) => {
                proof {
                    assert(self@ == ExprS::ApplyAgg(op@, eseq_view(a_args@), eseq_view(args@)));
                }
                let fa = opt_vec(a_args);
                let fr = opt_vec(args);
                Expr::ApplyAgg(op, fa, fr)
            },
            v @ (Expr::Const(_) | Expr::Variable(_) | Expr::TableCol(_, _)
                | Expr::TupleSetIdx(_) | Expr::Bin(_, _) | Expr::Un(_, _)) => v,
        }
    }

    /// Row evaluation of this tree under a row-resolution context: produces
    /// a concrete value, or a fatal error for shapes that should have been
    /// eliminated by the earlier passes or that a value of the wrong shape
    /// reaches.
    pub fn row_eval<C: RowEvalContext, O: OpBehavior>(&self, ctx: &C, ops: &O) -> (res: Result<
        Value,
        EvalError,
    >)
        ensures
            vres_view(res) == row_eval_s(self@, ctx, ops),
            (crate::expr::expr_wf(self@) && crate::laws::row_ctx_resolves_wf(ctx)
                && crate::laws::ops_preserve_wf(ops)) ==> (res matches Ok(v)
                ==> crate::value::val_wf(v@)),
        decreases self@, 0int,
    {
        proof {
            if crate::expr::expr_wf(self@) && crate::laws::row_ctx_resolves_wf(ctx)
                && crate::laws::ops_preserve_wf(ops) {
                crate::laws::lemma_row_eval_preserves_wf(self@, ctx, ops);
            }
        }
        match self {
            Expr::Const(v) => Ok(v.duplicate()),
            Expr::Variable(n) => Err(EvalError::UnresolvedVariable(n.clone())),
            Expr::TableCol(t, c) => Err(EvalError::UnresolveTableCol(*t, *c)),
            Expr::TupleSetIdx(i) => ctx.resolve(i),
            Expr::List(l) => {
                proof {
                    assert(self@ == ExprS::List(eseq_view(l@)));
                }
                match eval_vec_from(l, 0, ctx, ops) {
                    Err(e) => Err(e),
                    Ok(vals) => Ok(Value::List(vals)),
                }
            },
            Expr::Dict(d) => {
                proof {
                    assert(self@ == ExprS::Dict(eentries_view(d@)));
                }
                match eval_entries_from(d, 0, ctx, ops) {
                    Err(e) => Err(e),
                    Ok(es) => Ok(Value::Dict(es)),
                }
            },
            Expr::Apply(op, args) => {
                proof {
                    assert(self@ == ExprS::Apply(op@, eseq_view(args@)));
                }
                match eval_vec_from(args, 0, ctx, ops) {
                    Err(e) => Err(e),
                    Ok(vals) => {
                        let has_null = any_null(&vals);
                        apply_generic(op, has_null, vals, ops)
                    },
                }
            },
            Expr::ApplyAgg(_, _, _) => Err(EvalError::AggregateOutsideAggregation),
            Expr::FieldAcc(f, arg) => {
                proof {
                    assert(self@ == ExprS::FieldAcc(f@, Box::new(arg@)));
                }
                match arg.row_eval(ctx, ops) {
                    Err(e) => Err(e),
                    Ok(v) => match v {
                        Value::Null => Ok(Value::Null),
                        Value::Dict(d) => Ok(val_dict_remove(d, f)),
                        v => Err(EvalError::FieldAccess(f.clone(), v)),
                    },
                }
            },
            Expr::IdxAcc(idx, arg) => {
                proof {
                    assert(self@ == ExprS::IdxAcc(*idx as int, Box::new(arg@)));
                }
                match arg.row_eval(ctx, ops) {
                    Err(e) => Err(e),
                    Ok(v) => match v {
                        Value::Null => Ok(Value::Null),
                        Value::List(mut l) => {
                            proof {
                                assert(vals_view(l@).len() == l@.len());
                            }
                            if *idx >= l.len() {
                                Ok(Value::Null)
                            } else {
                                proof {
                                    assert(vals_view(l@)[*idx as int] == crate::value::val_view(
                                        l@[*idx as int],
                                    ));
                                }
                                Ok(l.remove(*idx))
                            }
                        },
                        v => Err(EvalError::IndexAccess(*idx, v)),
                    },
                }
            },
            Expr::Bin(op, p) => {
                proof {
                    assert(self@ == ExprS::Bin(*op, Box::new(p.0@), Box::new(p.1@)));
                }
                let lv = match p.0.row_eval(ctx, ops) {
                    Err(e) => return Err(e),
                    Ok(v) => v,
                };
                let rv = match p.1.row_eval(ctx, ops) {
                    Err(e) => return Err(e),
                    Ok(v) => v,
                };
                if op.variadic() {
                    bin_eval_null_aware(*op, lv, rv)
                } else if matches!(&lv, Value::Null) || matches!(&rv, Value::Null) {
                    Ok(Value::Null)
                } else {
                    bin_eval_non_null(*op, lv, rv)
                }
            },
            Expr::Un(op, arg) => {
                proof {
                    assert(self@ == ExprS::Un(*op, Box::new(arg@)));
                }
                match arg.row_eval(ctx, ops) {
                    Err(e) => Err(e),
                    Ok(v) => if op.null_seeing() {
                        Ok(un_eval_direct(*op, v))
                    } else if matches!(&v, Value::Null) {
                        Ok(Value::Null)
                    } else {
                        un_eval_non_null(*op, v)
                    },
                }
            },
        }
    }
}

/// Specializes the two argument expressions of a binary built-in, in order.
pub fn extract_optimized_bin_args(args: Vec<Expr>) -> (r: (Expr, Expr))
    requires
        args@.len() >= 2,
        arity_ok(eseq_view(args@)[0]),
        arity_ok(eseq_view(args@)[1]),
    ensures
        r.0@ == optimize_s(eseq_view(args@)[0]),
        r.1@ == optimize_s(eseq_view(args@)[1]),
    decreases eseq_view(args@),
{
    let ghost s = eseq_view(args@);
    let mut args = args;
    let a = args.remove(0);
    let b = args.remove(0);
    proof {
        assert(s[0] == a@);
        assert(s[1] == b@);
        assert(decreases_to!(s => s[0]));
        assert(decreases_to!(s => s[1]));
    }
    (a.optimize_ops(), b.optimize_ops())
}

/// Specializes the single argument expression of a unary built-in.
pub fn extract_optimized_u_args(args: Vec<Expr>) -> (r: Expr)
    requires
        args@.len() >= 1,
        arity_ok(eseq_view(args@)[0]),
    ensures
        r@ == optimize_s(eseq_view(args@)[0]),
    decreases eseq_view(args@),
{
    let ghost s = eseq_view(args@);
    let mut args = args;
    let a = args.remove(0);
    proof {
        assert(s[0] == a@);
        assert(decreases_to!(s => s[0]));
    }
    a.optimize_ops()
}

/// Specializes every expression of a vector: executable twin of
/// [`opt_seq_s`].
fn opt_vec(v: Vec<Expr>) -> (res: Vec<Expr>)
    requires
        forall|i: int|
            0 <= i < eseq_view(v@).len() ==> arity_ok(#[trigger] eseq_view(v@)[i]),
    ensures
        eseq_view(res@) == opt_seq_s(eseq_view(v@)),
    decreases eseq_view(v@),
{
    let ghost s = eseq_view(v@);
    let mut v = v;
    if v.len() == 0 {
        let out: Vec<Expr> = Vec::new();
        proof {
            assert(eseq_view(out@) =~= opt_seq_s(s));
        }
        out
    } else {
        let first = v.remove(0);
        proof {
            assert(s[0] == first@);
            assert(decreases_to!(s => s[0]));
            assert(eseq_view(v@) =~= s.subrange(1, s.len() as int));
            assert(decreases_to!(s => s.subrange(1, s.len() as int)));
        }
        let f = first.optimize_ops();
        let mut rest = opt_vec(v);
        let ghost rests = eseq_view(rest@);
        rest.insert(0, f);
        proof {
            assert(eseq_view(rest@) =~= seq![f@] + rests);
            assert(seq![f@] + rests =~= opt_seq_s(s));
        }
        rest
    }
}

/// Specializes every value of an entry vector, keeping the keys: executable
/// twin of [`opt_entries_s`].
fn opt_entries(v: Vec<(String, Expr)>) -> (res: Vec<(String, Expr)>)
    requires
        forall|i: int|
            0 <= i < eentries_view(v@).len() ==> arity_ok(
                (#[trigger] eentries_view(v@)[i]).1,
            ),
    ensures
        eentries_view(res@) == opt_entries_s(eentries_view(v@)),
    decreases eentries_view(v@),
{
    let ghost s = eentries_view(v@);
    let mut v = v;
    if v.len() == 0 {
        let out: Vec<(String, Expr)> = Vec::new();
        proof {
            assert(eentries_view(out@) =~= opt_entries_s(s));
        }
        out
    } else {
        let (key, first) = v.remove(0);
        proof {
            assert(s[0] == (key@, first@));
            assert(decreases_to!(s => s[0]));
            assert(decreases_to!(s[0] => s[0].1));
            assert(eentries_view(v@) =~= s.subrange(1, s.len() as int));
            assert(decreases_to!(s => s.subrange(1, s.len() as int)));
        }
        let f = first.optimize_ops();
        let mut rest = opt_entries(v);
        let ghost rests = eentries_view(rest@);
        rest.insert(0, (key, f));
        proof {
            assert(eentries_view(rest@) =~= seq![(s[0].0, f@)] + rests);
            assert(seq![(s[0].0, f@)] + rests =~= opt_entries_s(s));
        }
        rest
    }
}

/// Left-folds the remaining specialized arguments of a variadic built-in
/// into a chain of binary nodes: executable twin of [`opt_chain_s`].
fn run_opt_chain(op: BinOp, acc: Expr, rest: Vec<Expr>) -> (r: Expr)
    requires
        forall|i: int|
            0 <= i < eseq_view(rest@).len() ==> arity_ok(#[trigger] eseq_view(rest@)[i]),
    ensures
        r@ == opt_chain_s(op, acc@, eseq_view(rest@)),
    decreases eseq_view(rest@),
{
    let ghost s = eseq_view(rest@);
    let mut rest = rest;
    if rest.len() == 0 {
        acc
    } else {
        let nxt = rest.remove(0);
        proof {
            assert(s[0] == nxt@);
            assert(decreases_to!(s => s[0]));
            assert(eseq_view(rest@) =~= s.subrange(1, s.len() as int));
            assert(decreases_to!(s => s.subrange(1, s.len() as int)));
        }
        let onxt = nxt.optimize_ops();
        run_opt_chain(op, Expr::Bin(op, Box::new((acc, onxt))), rest)
    }
}

/// Evaluates the expressions of a vector from position `i` on: executable
/// twin of [`eval_from_s`].
fn eval_vec_from<C: RowEvalContext, O: OpBehavior>(
    v: &Vec<Expr>,
    i: usize,
    ctx: &C,
    ops: &O,
) -> (res: Result<Vec<Value>, EvalError>)
    requires
        i <= v@.len(),
    ensures
        vvres_view(res) == eval_from_s(eseq_view(v@), i as int, ctx, ops),
    decreases eseq_view(v@), v@.len() - i,
{
    let ghost s = eseq_view(v@);
    if i == v.len() {
        let out: Vec<Value> = Vec::new();
        proof {
            assert(vals_view(out@) =~= Seq::<ValS>::empty());
        }
        Ok(out)
    } else {
        proof {
            assert(s[i as int] == v@[i as int]@);
            assert(decreases_to!(s => s[i as int]));
        }
        match v[i].row_eval(ctx, ops) {
            Err(e) => Err(e),
            Ok(val) => match eval_vec_from(v, i + 1, ctx, ops) {
                Err(e) => Err(e),
                Ok(mut rest) => {
                    let ghost rests = vals_view(rest@);
                    rest.insert(0, val);
                    proof {
                        assert(vals_view(rest@) =~= seq![val@] + rests);
                    }
                    Ok(rest)
                },
            },
        }
    }
}

/// Evaluates the values of an entry vector from position `i` on, keeping
/// the keys: executable twin of [`eval_entries_from_s`].
fn eval_entries_from<C: RowEvalContext, O: OpBehavior>(
    v: &Vec<(String, Expr)>,
    i: usize,
    ctx: &C,
    ops: &O,
) -> (res: Result<Vec<(String, Value)>, EvalError>)
    requires
        i <= v@.len(),
    ensures
        veres_view(res) == eval_entries_from_s(eentries_view(v@), i as int, ctx, ops),
    decreases eentries_view(v@), v@.len() - i,
{
    let ghost s = eentries_view(v@);
    if i == v.len() {
        let out: Vec<(String, Value)> = Vec::new();
        proof {
            assert(ventries_view(out@) =~= Seq::<(Seq<char>, ValS)>::empty());
        }
        Ok(out)
    } else {
        proof {
            assert(s[i as int] == (v@[i as int].0@, v@[i as int].1@));
            assert(decreases_to!(s => s[i as int]));
            assert(decreases_to!(s[i as int] => s[i as int].1));
        }
        match v[i].1.row_eval(ctx, ops) {
            Err(e) => Err(e),
            Ok(val) => match eval_entries_from(v, i + 1, ctx, ops) {
                Err(e) => Err(e),
                Ok(mut rest) => {
                    let ghost rests = ventries_view(rest@);
                    rest.insert(0, (v[i].0.clone(), val));
                    proof {
                        assert(ventries_view(rest@) =~= seq![(s[i as int].0, val@)] + rests);
                    }
                    Ok(rest)
                },
            },
        }
    }
}

} // verus!
