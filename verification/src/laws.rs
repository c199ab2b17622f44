//! Laws of the three passes, proved against their functional models:
//! idempotence of folding on variable-free trees and of specialization,
//! agreement of constant folding with direct evaluation, structure
//! preservation of specialization for unknown operators, null propagation
//! at row time, the default-to-null rules of field and index access, the
//! ordering violation, and preservation of the mapping invariant (unique
//! keys in key order) by all three passes.

use vstd::prelude::*;

use crate::error::ErrS;
use crate::eval::ExprEvalContext;
use crate::eval::OpBehavior;
use crate::eval::RowEvalContext;
use crate::eval::apply_generic_s;
use crate::eval::eval_entries_from_s;
use crate::eval::eval_from_s;
use crate::eval::fold_nullaware_s;
use crate::eval::has_null_in;
use crate::eval::ctx_wf;
use crate::eval::vrank;
use crate::eval::vrank_entries;
use crate::eval::vrank_seq;
use crate::eval::field_acc_fold_s;
use crate::eval::fold_entries_s;
use crate::eval::fold_hook_agg_s;
use crate::eval::fold_hook_s;
use crate::eval::fold_s;
use crate::eval::fold_seq_s;
use crate::eval::idx_acc_fold_s;
use crate::eval::opt_chain_s;
use crate::eval::opt_entries_s;
use crate::eval::opt_seq_s;
use crate::eval::optimize_s;
use crate::eval::row_eval_s;
use crate::expr::ExprS;
use crate::expr::ekeys_sorted;
use crate::expr::expr_dict_get;
use crate::expr::expr_wf;
use crate::expr::has_specialized;
use crate::expr::no_vars;
use crate::op::BinOp;
use crate::op::OpDescS;
use crate::op::OpIdS;
use crate::op::UnOp;
use crate::op::bin_nonnull_s;
use crate::op::bin_nullaware_s;
use crate::op::str_lt;
use crate::op::str_lt_from;
use crate::op::un_nonnull_s;
use crate::op::is_variadic;
use crate::op::op_side_effect;
use crate::op::sees_null;
use crate::value::ValS;
use crate::value::val_dict_get;
use crate::value::val_wf;
use crate::value::vkeys_sorted;

verus! {

/// A tree-valued mapping lookup yields a null constant or one of the stored
/// sub-expressions.
proof fn lemma_expr_dict_get_cases(entries: Seq<(Seq<char>, ExprS)>, key: Seq<char>)
    ensures
        expr_dict_get(entries, key) == ExprS::Const(ValS::Null) || exists|k: int|
            0 <= k < entries.len() && expr_dict_get(entries, key) == (#[trigger] entries[k]).1,
    decreases entries.len(),
{
    if entries.len() > 0 && entries[0].0 != key {
        let sub = entries.subrange(1, entries.len() as int);
        lemma_expr_dict_get_cases(sub, key);
        if expr_dict_get(entries, key) != ExprS::Const(ValS::Null) {
            let k = choose|k: int| 0 <= k < sub.len() && expr_dict_get(sub, key) == sub[k].1;
            assert(entries[k + 1].1 == sub[k].1);
        }
    }
}

/// A mapping lookup over entries without the requested key yields null.
pub proof fn lemma_val_dict_get_absent(entries: Seq<(Seq<char>, ValS)>, key: Seq<char>)
    requires
        forall|j: int| 0 <= j < entries.len() ==> (#[trigger] entries[j]).0 != key,
    ensures
        val_dict_get(entries, key) == ValS::Null,
    decreases entries.len(),
{
    if entries.len() > 0 {
        let sub = entries.subrange(1, entries.len() as int);
        assert(forall|j: int| 0 <= j < sub.len() ==> (#[trigger] sub[j]).0 != key);
        lemma_val_dict_get_absent(sub, key);
    }
}

/// Side condition for fold idempotence: every replacement the operator
/// catalog extension's folding hooks hand out is itself a variable-free
/// fixed point of folding.  The built-in hooks only produce constants,
/// which always satisfy this; a hook that folded an application into a
/// still-reducible tree would make a second fold reduce further.
pub open spec fn hooks_fold_fixed<C: ExprEvalContext, O: OpBehavior>(ctx: &C, ops: &O) -> bool {
    (forall|name: Seq<char>, args: Seq<ExprS>|
        (#[trigger] ops.fold_hook_spec(name, args)) matches Ok(Some(x)) ==> fold_s(x, ctx, ops)
            == Ok::<ExprS, ErrS>(x) && no_vars(x)) && (forall|
        name: Seq<char>,
        a_args: Seq<ExprS>,
        args: Seq<ExprS>,
    |
        (#[trigger] ops.fold_hook_agg_spec(name, a_args, args)) matches Ok(Some(x)) ==> fold_s(
            x,
            ctx,
            ops,
        ) == Ok::<ExprS, ErrS>(x) && no_vars(x))
}

/// Folding a variable-free tree succeeds into a fixed point: folding its
/// result again, under the same context and catalog extension, changes
/// nothing and resolves no variable.  (A tree that still holds free
/// variables does not enjoy this: a context may resolve a variable to a
/// replacement that folding would reduce further on the second run.)
#[verifier::rlimit(100)]
pub proof fn lemma_fold_idempotent<C: ExprEvalContext, O: OpBehavior>(e: ExprS, ctx: &C, ops: &O)
    requires
        ctx_wf(ctx),
        hooks_fold_fixed(ctx, ops),
        no_vars(e),
        fold_s(e, ctx, ops) is Ok,
    ensures
        no_vars(fold_s(e, ctx, ops)->Ok_0),
        fold_s(fold_s(e, ctx, ops)->Ok_0, ctx, ops) == fold_s(e, ctx, ops),
    decreases e, 0int,
{
    let r = fold_s(e, ctx, ops)->Ok_0;
    match e {
        ExprS::Const(_) | ExprS::TableCol(_, _) | ExprS::TupleSetIdx(_) => {},
        ExprS::List(l) => {
            lemma_fold_seq_idempotent(l, ctx, ops);
            assert(r == ExprS::List(fold_seq_s(l, ctx, ops)->Ok_0));
            assert(no_vars(r));
            assert(fold_s(r, ctx, ops) == fold_s(e, ctx, ops));
        },
        ExprS::Dict(d) => {
            lemma_fold_entries_idempotent(d, ctx, ops);
            assert(r == ExprS::Dict(fold_entries_s(d, ctx, ops)->Ok_0));
            assert(no_vars(r));
            assert(fold_s(r, ctx, ops) == fold_s(e, ctx, ops));
        },
        ExprS::Variable(_) => {},
        ExprS::FieldAcc(f, a) => {
            assert(!(*a is Variable)) by {
                if let ExprS::Variable(n) = *a {
                    assert(!no_vars(*a));
                }
            }
            assert(fold_s(*a, ctx, ops) is Ok);
            lemma_fold_idempotent(*a, ctx, ops);
            let ia = fold_s(*a, ctx, ops)->Ok_0;
            assert(fold_s(ia, ctx, ops) == Ok::<ExprS, ErrS>(ia));
            lemma_fold_access_fixed(ia, ctx, ops);
            assert(r == field_acc_fold_s(f, ia)->Ok_0);
            match ia {
                ExprS::Const(_) => {
                    assert(r is Const);
                    assert(no_vars(r));
                    assert(fold_s(r, ctx, ops) == Ok::<ExprS, ErrS>(r));
                },
                ExprS::IdxAcc(_, _) | ExprS::FieldAcc(_, _) | ExprS::TableCol(_, _)
                    | ExprS::TupleSetIdx(_) | ExprS::Apply(_, _) | ExprS::ApplyAgg(_, _, _) => {
                    assert(r == ExprS::FieldAcc(f, Box::new(ia)));
                    assert(no_vars(r));
                    assert(fold_s(r, ctx, ops) == Ok::<ExprS, ErrS>(r));
                },
                ExprS::Dict(entries) => {
                    lemma_expr_dict_get_cases(entries, f);
                    assert(fold_entries_s(entries, ctx, ops) is Ok) by {
                        if fold_entries_s(entries, ctx, ops) is Err {
                            assert(fold_s(ia, ctx, ops) is Err);
                        }
                    }
                    assert(fold_s(ia, ctx, ops) == Ok::<ExprS, ErrS>(
                        ExprS::Dict(fold_entries_s(entries, ctx, ops)->Ok_0),
                    ));
                    assert(fold_entries_s(entries, ctx, ops) == Ok::<
                        Seq<(Seq<char>, ExprS)>,
                        ErrS,
                    >(entries));
                    lemma_fold_entries_inversion(entries, ctx, ops);
                    assert(r == expr_dict_get(entries, f));
                    if r != ExprS::Const(ValS::Null) {
                        let k = choose|k: int|
                            0 <= k < entries.len() && expr_dict_get(entries, f) == (
                            #[trigger] entries[k]).1;
                        assert(fold_s(entries[k].1, ctx, ops) == Ok::<ExprS, ErrS>(entries[k].1));
                        assert(no_vars(entries[k].1));
                    }
                    assert(no_vars(r));
                    assert(fold_s(r, ctx, ops) == Ok::<ExprS, ErrS>(r));
                },
                _ => {
                    assert(fold_s(e, ctx, ops) is Err);
                },
            }
        },
        ExprS::IdxAcc(i, a) => {
            assert(fold_s(*a, ctx, ops) is Ok);
            lemma_fold_idempotent(*a, ctx, ops);
            let ia = fold_s(*a, ctx, ops)->Ok_0;
            assert(fold_s(ia, ctx, ops) == Ok::<ExprS, ErrS>(ia));
            lemma_fold_access_fixed(ia, ctx, ops);
            assert(r == idx_acc_fold_s(i, ia)->Ok_0);
            match ia {
                ExprS::Const(_) => {
                    assert(r is Const);
                    assert(no_vars(r));
                    assert(fold_s(r, ctx, ops) == Ok::<ExprS, ErrS>(r));
                },
                ExprS::IdxAcc(_, _) | ExprS::FieldAcc(_, _) | ExprS::TableCol(_, _)
                    | ExprS::TupleSetIdx(_) | ExprS::Apply(_, _) | ExprS::ApplyAgg(_, _, _) => {
                    assert(r == ExprS::IdxAcc(i, Box::new(ia)));
                    assert(no_vars(r));
                    assert(fold_s(r, ctx, ops) == Ok::<ExprS, ErrS>(r));
                },
                ExprS::List(es) => {
                    assert(fold_seq_s(es, ctx, ops) is Ok) by {
                        if fold_seq_s(es, ctx, ops) is Err {
                            assert(fold_s(ia, ctx, ops) is Err);
                        }
                    }
                    assert(fold_s(ia, ctx, ops) == Ok::<ExprS, ErrS>(
                        ExprS::List(fold_seq_s(es, ctx, ops)->Ok_0),
                    ));
                    assert(fold_seq_s(es, ctx, ops) == Ok::<Seq<ExprS>, ErrS>(es));
                    lemma_fold_seq_inversion(es, ctx, ops);
                    if 0 <= i < es.len() {
                        assert(r == es[i]);
                        assert(fold_s(es[i], ctx, ops) == Ok::<ExprS, ErrS>(es[i]));
                        assert(no_vars(es[i]));
                    } else {
                        assert(r == ExprS::Const(ValS::Null));
                    }
                    assert(no_vars(r));
                    assert(fold_s(r, ctx, ops) == Ok::<ExprS, ErrS>(r));
                },
                _ => {
                    assert(fold_s(e, ctx, ops) is Err);
                },
            }
        },
        ExprS::Apply(op, args) => {
            lemma_fold_seq_idempotent(args, ctx, ops);
            let fargs = fold_seq_s(args, ctx, ops)->Ok_0;
            if !op_side_effect(op) {
                match fold_hook_s(op, fargs, ops) {
                    Ok(Some(x)) => {
                        assert(r == x);
                        if let OpIdS::Other(d) = op {
                            assert(ops.fold_hook_spec(d.name, fargs) == Ok::<Option<ExprS>, ErrS>(Some(x)));
                            assert(fold_s(x, ctx, ops) == Ok::<ExprS, ErrS>(x) && no_vars(x));
                        } else {
                            assert(x is Const);
                        }
                        assert(no_vars(r));
                        assert(fold_s(r, ctx, ops) == fold_s(e, ctx, ops));
                    },
                    Ok(None) => {
                        assert(r == ExprS::Apply(op, fargs));
                        assert(no_vars(r));
                        assert(fold_seq_s(fargs, ctx, ops) == Ok::<Seq<ExprS>, ErrS>(fargs));
                        assert(fold_s(r, ctx, ops) == fold_s(e, ctx, ops));
                    },
                    Err(_) => {},
                }
            } else {
                assert(r == ExprS::Apply(op, fargs));
                assert(no_vars(r));
                assert(fold_s(r, ctx, ops) == fold_s(e, ctx, ops));
            }
        },
        ExprS::ApplyAgg(op, a_args, args) => {
            lemma_fold_seq_idempotent(a_args, ctx, ops);
            lemma_fold_seq_idempotent(args, ctx, ops);
            let fa = fold_seq_s(a_args, ctx, ops)->Ok_0;
            let fr = fold_seq_s(args, ctx, ops)->Ok_0;
            if !op_side_effect(op) {
                match fold_hook_agg_s(op, fa, fr, ops) {
                    Ok(Some(x)) => {
                        assert(r == x);
                        if let OpIdS::Other(d) = op {
                            assert(ops.fold_hook_agg_spec(d.name, fa, fr) == Ok::<Option<ExprS>, ErrS>(Some(x)));
                            assert(fold_s(x, ctx, ops) == Ok::<ExprS, ErrS>(x) && no_vars(x));
                        }
                        assert(no_vars(r));
                        assert(fold_s(r, ctx, ops) == fold_s(e, ctx, ops));
                    },
                    Ok(None) => {
                        assert(r == ExprS::ApplyAgg(op, fa, fr));
                        assert(no_vars(r));
                        assert(fold_seq_s(fa, ctx, ops) == Ok::<Seq<ExprS>, ErrS>(fa));
                        assert(fold_seq_s(fr, ctx, ops) == Ok::<Seq<ExprS>, ErrS>(fr));
                        assert(fold_s(r, ctx, ops) == fold_s(e, ctx, ops));
                    },
                    Err(_) => {},
                }
            } else {
                assert(r == ExprS::ApplyAgg(op, fa, fr));
                assert(no_vars(r));
                assert(fold_s(r, ctx, ops) == fold_s(e, ctx, ops));
            }
        },
        ExprS::Bin(_, _, _) | ExprS::Un(_, _) => {},
    }
}

/// A tree that folding has already reduced and re-wrapped as a deferred
/// access keeps its shape: the deferred shapes, constants among them, fold
/// to themselves once they are fixed points.  Helper fact: a constant always
/// folds to itself.
proof fn lemma_fold_access_fixed<C: ExprEvalContext, O: OpBehavior>(ia: ExprS, ctx: &C, ops: &O)
    requires
        ctx_wf(ctx),
    ensures
        ia is Const ==> fold_s(ia, ctx, ops) == Ok::<ExprS, ErrS>(ia),
{
}

/// Inverts a successful sequence fold: it folded each element in place.
proof fn lemma_fold_seq_inversion<C: ExprEvalContext, O: OpBehavior>(s: Seq<ExprS>, ctx: &C, ops: &O)
    requires
        ctx_wf(ctx),
        fold_seq_s(s, ctx, ops) is Ok,
    ensures
        fold_seq_s(s, ctx, ops)->Ok_0.len() == s.len(),
        forall|i: int|
            0 <= i < s.len() ==> fold_s(#[trigger] s[i], ctx, ops) == Ok::<ExprS, ErrS>(
                fold_seq_s(s, ctx, ops)->Ok_0[i],
            ),
    decreases s.len(),
{
    if s.len() > 0 {
        let sub = s.subrange(1, s.len() as int);
        lemma_fold_seq_inversion(sub, ctx, ops);
        let r = fold_seq_s(s, ctx, ops)->Ok_0;
        let rest = fold_seq_s(sub, ctx, ops)->Ok_0;
        assert(r == seq![fold_s(s[0], ctx, ops)->Ok_0] + rest);
        assert(forall|i: int| 1 <= i < s.len() ==> r[i] == rest[i - 1] && sub[i - 1] == s[i]);
    }
}

/// Inverts a successful entry fold: it kept the keys and folded each value
/// in place.
proof fn lemma_fold_entries_inversion<C: ExprEvalContext, O: OpBehavior>(
    s: Seq<(Seq<char>, ExprS)>,
    ctx: &C,
    ops: &O,
)
    requires
        ctx_wf(ctx),
        fold_entries_s(s, ctx, ops) is Ok,
    ensures
        fold_entries_s(s, ctx, ops)->Ok_0.len() == s.len(),
        forall|i: int|
            0 <= i < s.len() ==> (#[trigger] fold_entries_s(s, ctx, ops)->Ok_0[i]).0 == s[i].0
                && fold_s(s[i].1, ctx, ops) == Ok::<ExprS, ErrS>(
                fold_entries_s(s, ctx, ops)->Ok_0[i].1,
            ),
    decreases s.len(),
{
    if s.len() > 0 {
        let sub = s.subrange(1, s.len() as int);
        lemma_fold_entries_inversion(sub, ctx, ops);
        let r = fold_entries_s(s, ctx, ops)->Ok_0;
        let rest = fold_entries_s(sub, ctx, ops)->Ok_0;
        assert(r == seq![(s[0].0, fold_s(s[0].1, ctx, ops)->Ok_0)] + rest);
        assert(forall|i: int| 1 <= i < s.len() ==> r[i] == rest[i - 1] && sub[i - 1] == s[i]);
    }
}

/// Sequence version of [`lemma_fold_idempotent`]: folded children are
/// elementwise fixed points, and the folded sequence re-folds to itself.
proof fn lemma_fold_seq_idempotent<C: ExprEvalContext, O: OpBehavior>(s: Seq<ExprS>, ctx: &C, ops: &O)
    requires
        ctx_wf(ctx),
        hooks_fold_fixed(ctx, ops),
        forall|i: int| 0 <= i < s.len() ==> no_vars(#[trigger] s[i]),
        fold_seq_s(s, ctx, ops) is Ok,
    ensures
        fold_seq_s(s, ctx, ops)->Ok_0.len() == s.len(),
        forall|i: int|
            0 <= i < s.len() ==> fold_s(#[trigger] s[i], ctx, ops) == Ok::<ExprS, ErrS>(
                fold_seq_s(s, ctx, ops)->Ok_0[i],
            ),
        forall|i: int| 0 <= i < s.len() ==> no_vars(#[trigger] fold_seq_s(s, ctx, ops)->Ok_0[i]),
        forall|i: int|
            0 <= i < s.len() ==> fold_s(#[trigger] fold_seq_s(s, ctx, ops)->Ok_0[i], ctx, ops) == Ok::<
                ExprS,
                ErrS,
            >(fold_seq_s(s, ctx, ops)->Ok_0[i]),
        fold_seq_s(fold_seq_s(s, ctx, ops)->Ok_0, ctx, ops) == fold_seq_s(s, ctx, ops),
    decreases s, s.len(),
{
    let r = fold_seq_s(s, ctx, ops)->Ok_0;
    if s.len() > 0 {
        let sub = s.subrange(1, s.len() as int);
        lemma_fold_idempotent(s[0], ctx, ops);
        lemma_fold_seq_idempotent(sub, ctx, ops);
        let v0 = fold_s(s[0], ctx, ops)->Ok_0;
        let rest = fold_seq_s(sub, ctx, ops)->Ok_0;
        assert(r == seq![v0] + rest);
        assert(r[0] == v0);
        assert(forall|i: int| 1 <= i < s.len() ==> r[i] == rest[i - 1] && sub[i - 1] == s[i]);
        assert(r.subrange(1, r.len() as int) =~= rest);
        assert(fold_seq_s(r, ctx, ops) == Ok::<Seq<ExprS>, ErrS>(seq![v0] + rest));
        assert(seq![v0] + rest =~= r);
    } else {
        assert(r =~= Seq::<ExprS>::empty());
    }
}

/// Entry version of [`lemma_fold_seq_idempotent`]: keys are preserved and
/// folded values are elementwise fixed points.
proof fn lemma_fold_entries_idempotent<C: ExprEvalContext, O: OpBehavior>(
    s: Seq<(Seq<char>, ExprS)>,
    ctx: &C,
    ops: &O,
)
    requires
        ctx_wf(ctx),
        hooks_fold_fixed(ctx, ops),
        forall|i: int| 0 <= i < s.len() ==> no_vars((#[trigger] s[i]).1),
        fold_entries_s(s, ctx, ops) is Ok,
    ensures
        fold_entries_s(s, ctx, ops)->Ok_0.len() == s.len(),
        forall|i: int|
            0 <= i < s.len() ==> (#[trigger] fold_entries_s(s, ctx, ops)->Ok_0[i]).0 == s[i].0
                && fold_s(s[i].1, ctx, ops) == Ok::<ExprS, ErrS>(fold_entries_s(s, ctx, ops)->Ok_0[i].1),
        forall|i: int|
            0 <= i < s.len() ==> no_vars((#[trigger] fold_entries_s(s, ctx, ops)->Ok_0[i]).1),
        forall|i: int|
            0 <= i < s.len() ==> fold_s((#[trigger] fold_entries_s(s, ctx, ops)->Ok_0[i]).1, ctx, ops)
                == Ok::<ExprS, ErrS>(fold_entries_s(s, ctx, ops)->Ok_0[i].1),
        fold_entries_s(fold_entries_s(s, ctx, ops)->Ok_0, ctx, ops) == fold_entries_s(s, ctx, ops),
    decreases s, s.len(),
{
    let r = fold_entries_s(s, ctx, ops)->Ok_0;
    if s.len() > 0 {
        let sub = s.subrange(1, s.len() as int);
        lemma_fold_idempotent(s[0].1, ctx, ops);
        lemma_fold_entries_idempotent(sub, ctx, ops);
        let v0 = fold_s(s[0].1, ctx, ops)->Ok_0;
        let rest = fold_entries_s(sub, ctx, ops)->Ok_0;
        assert(r == seq![(s[0].0, v0)] + rest);
        assert(forall|i: int| 1 <= i < s.len() ==> r[i] == rest[i - 1] && sub[i - 1] == s[i]);
        assert(r.subrange(1, r.len() as int) =~= rest);
        assert(fold_entries_s(r, ctx, ops) == Ok::<Seq<(Seq<char>, ExprS)>, ErrS>(
            seq![(r[0].0, v0)] + rest,
        ));
        assert(seq![(r[0].0, v0)] + rest =~= r);
    } else {
        assert(r =~= Seq::<(Seq<char>, ExprS)>::empty());
    }
}

/// Folding a generic application of a built-in operator over constant
/// arguments yields the single constant that direct evaluation of those
/// constants gives, under the same null policy as row evaluation; an
/// evaluation error surfaces as the fold error.
pub proof fn lemma_fold_constant_binary<C: ExprEvalContext, O: OpBehavior>(
    op: BinOp,
    x: ValS,
    y: ValS,
    ctx: &C,
    ops: &O,
)
    requires
        ctx_wf(ctx),
    ensures
        fold_s(ExprS::Apply(OpIdS::Bin(op), seq![ExprS::Const(x), ExprS::Const(y)]), ctx, ops)
            == match apply_generic_s(OpIdS::Bin(op), x is Null || y is Null, seq![x, y], ops) {
            Ok(v) => Ok::<ExprS, ErrS>(ExprS::Const(v)),
            Err(er) => Err::<ExprS, ErrS>(er),
        },
{
    let args = seq![ExprS::Const(x), ExprS::Const(y)];
    assert(fold_s(args[0], ctx, ops) == Ok::<ExprS, ErrS>(args[0]));
    assert(fold_s(args[1], ctx, ops) == Ok::<ExprS, ErrS>(args[1]));
    let sub = args.subrange(1, 2);
    assert(sub.len() == 1 && sub[0] == args[1]);
    assert(sub.subrange(1, 1) =~= Seq::<ExprS>::empty());
    assert(fold_seq_s(Seq::<ExprS>::empty(), ctx, ops) == Ok::<Seq<ExprS>, ErrS>(
        Seq::<ExprS>::empty(),
    ));
    assert(seq![args[1]] + Seq::<ExprS>::empty() =~= seq![args[1]]);
    assert(fold_seq_s(sub, ctx, ops) == Ok::<Seq<ExprS>, ErrS>(seq![args[1]]));
    assert(fold_seq_s(args, ctx, ops) == Ok::<Seq<ExprS>, ErrS>(seq![args[0]] + seq![args[1]]));
    let fargs = fold_seq_s(args, ctx, ops)->Ok_0;
    assert(fargs =~= args);
    let vals = Seq::new(args.len(), |i: int| args[i]->Const_0);
    assert(vals =~= seq![x, y]);
    assert((exists|i: int| 0 <= i < args.len() && (#[trigger] args[i])->Const_0 is Null) <==> (
    x is Null || y is Null)) by {
        if x is Null {
            assert(args[0]->Const_0 is Null);
        }
        if y is Null {
            assert(args[1]->Const_0 is Null);
        }
    }
}

/// Unary version of [`lemma_fold_constant_binary`].
pub proof fn lemma_fold_constant_unary<C: ExprEvalContext, O: OpBehavior>(
    op: UnOp,
    x: ValS,
    ctx: &C,
    ops: &O,
)
    requires
        ctx_wf(ctx),
    ensures
        fold_s(ExprS::Apply(OpIdS::Un(op), seq![ExprS::Const(x)]), ctx, ops)
            == match apply_generic_s(OpIdS::Un(op), x is Null, seq![x], ops) {
            Ok(v) => Ok::<ExprS, ErrS>(ExprS::Const(v)),
            Err(er) => Err::<ExprS, ErrS>(er),
        },
{
    let args = seq![ExprS::Const(x)];
    assert(fold_s(args[0], ctx, ops) == Ok::<ExprS, ErrS>(args[0]));
    assert(args.subrange(1, 1) =~= Seq::<ExprS>::empty());
    assert(fold_seq_s(Seq::<ExprS>::empty(), ctx, ops) == Ok::<Seq<ExprS>, ErrS>(
        Seq::<ExprS>::empty(),
    ));
    assert(seq![args[0]] + Seq::<ExprS>::empty() =~= seq![args[0]]);
    assert(fold_seq_s(args, ctx, ops) == Ok::<Seq<ExprS>, ErrS>(seq![args[0]]));
    assert(fold_seq_s(args, ctx, ops)->Ok_0 =~= args);
    let vals = Seq::new(args.len(), |i: int| args[i]->Const_0);
    assert(vals =~= seq![x]);
    assert((exists|i: int| 0 <= i < args.len() && (#[trigger] args[i])->Const_0 is Null) <==> (
    x is Null)) by {
        if x is Null {
            assert(args[0]->Const_0 is Null);
        }
    }
}

/// Specialization is structure-preserving for operators outside the
/// built-in catalog: the generic application stays a generic application of
/// the same operator, with each argument recursively specialized.
pub proof fn lemma_specialize_unknown_preserves(d: OpDescS, args: Seq<ExprS>)
    ensures
        optimize_s(ExprS::Apply(OpIdS::Other(d), args)) == ExprS::Apply(
            OpIdS::Other(d),
            opt_seq_s(args),
        ),
{
}

/// Null propagation of the specialized propagating binaries: when both
/// sides evaluate and either side is null, the node evaluates to null; the
/// operator's own evaluation entry point plays no part in the result.
pub proof fn lemma_null_propagation_binary<C: RowEvalContext, O: OpBehavior>(
    op: BinOp,
    a: ExprS,
    b: ExprS,
    ctx: &C,
    ops: &O,
)
    requires
        !is_variadic(op),
        row_eval_s(a, ctx, ops) is Ok,
        row_eval_s(b, ctx, ops) is Ok,
        row_eval_s(a, ctx, ops)->Ok_0 is Null || row_eval_s(b, ctx, ops)->Ok_0 is Null,
    ensures
        row_eval_s(ExprS::Bin(op, Box::new(a), Box::new(b)), ctx, ops) == Ok::<ValS, ErrS>(
            ValS::Null,
        ),
{
}

/// Null propagation of the specialized propagating unaries (negate and
/// unary minus): a null operand makes the node null without consulting the
/// operator.
pub proof fn lemma_null_propagation_unary<C: RowEvalContext, O: OpBehavior>(
    op: UnOp,
    a: ExprS,
    ctx: &C,
    ops: &O,
)
    requires
        !sees_null(op),
        row_eval_s(a, ctx, ops) == Ok::<ValS, ErrS>(ValS::Null),
    ensures
        row_eval_s(ExprS::Un(op, Box::new(a)), ctx, ops) == Ok::<ValS, ErrS>(ValS::Null),
{
}

/// Field access at row time: a null base yields null; a mapping base
/// without the requested key yields null; a base that is neither null nor a
/// mapping is the fatal field-access error carrying the key and the value.
pub proof fn lemma_field_access_rules<C: RowEvalContext, O: OpBehavior>(
    f: Seq<char>,
    a: ExprS,
    ctx: &C,
    ops: &O,
)
    requires
        row_eval_s(a, ctx, ops) is Ok,
    ensures
        row_eval_s(a, ctx, ops)->Ok_0 is Null ==> row_eval_s(
            ExprS::FieldAcc(f, Box::new(a)),
            ctx,
            ops,
        ) == Ok::<ValS, ErrS>(ValS::Null),
        (row_eval_s(a, ctx, ops)->Ok_0 matches ValS::Dict(es) && (forall|j: int|
            0 <= j < es.len() ==> (#[trigger] es[j]).0 != f)) ==> row_eval_s(
            ExprS::FieldAcc(f, Box::new(a)),
            ctx,
            ops,
        ) == Ok::<ValS, ErrS>(ValS::Null),
        (!(row_eval_s(a, ctx, ops)->Ok_0 is Null) && !(row_eval_s(a, ctx, ops)->Ok_0 is Dict))
            ==> row_eval_s(ExprS::FieldAcc(f, Box::new(a)), ctx, ops) == Err::<ValS, ErrS>(
            ErrS::FieldAccess(f, row_eval_s(a, ctx, ops)->Ok_0),
        ),
{
    let v = row_eval_s(a, ctx, ops)->Ok_0;
    if let ValS::Dict(es) = v {
        if forall|j: int| 0 <= j < es.len() ==> (#[trigger] es[j]).0 != f {
            lemma_val_dict_get_absent(es, f);
        }
    }
}

/// Index access at row time: a null base yields null; an out-of-range index
/// on a list yields null; a base that is neither null nor a list is the
/// fatal index-access error carrying the index and the value.
pub proof fn lemma_index_access_rules<C: RowEvalContext, O: OpBehavior>(
    i: int,
    a: ExprS,
    ctx: &C,
    ops: &O,
)
    requires
        row_eval_s(a, ctx, ops) is Ok,
    ensures
        row_eval_s(a, ctx, ops)->Ok_0 is Null ==> row_eval_s(ExprS::IdxAcc(i, Box::new(a)), ctx, ops)
            == Ok::<ValS, ErrS>(ValS::Null),
        (row_eval_s(a, ctx, ops)->Ok_0 matches ValS::List(vs) && i >= vs.len()) ==> row_eval_s(
            ExprS::IdxAcc(i, Box::new(a)),
            ctx,
            ops,
        ) == Ok::<ValS, ErrS>(ValS::Null),
        (!(row_eval_s(a, ctx, ops)->Ok_0 is Null) && !(row_eval_s(a, ctx, ops)->Ok_0 is List))
            ==> row_eval_s(ExprS::IdxAcc(i, Box::new(a)), ctx, ops) == Err::<ValS, ErrS>(
            ErrS::IndexAccess(i, row_eval_s(a, ctx, ops)->Ok_0),
        ),
{
}

/// The three-valued logic table of the null-aware built-ins, over
/// boolean-or-null operands: or is true if either side is true, else null
/// if either side is null, else false; and is false if either side is
/// false, else null if either side is null, else true; coalesce yields the
/// first non-null side, else null (coalesce takes operands of any type).
pub proof fn lemma_three_valued_logic(a: ValS, b: ValS)
    requires
        a is Null || a is Bool,
        b is Null || b is Bool,
    ensures
        bin_nullaware_s(BinOp::Or, a, b) == Ok::<ValS, ErrS>(
            if a == ValS::Bool(true) || b == ValS::Bool(true) {
                ValS::Bool(true)
            } else if a is Null || b is Null {
                ValS::Null
            } else {
                ValS::Bool(false)
            },
        ),
        bin_nullaware_s(BinOp::And, a, b) == Ok::<ValS, ErrS>(
            if a == ValS::Bool(false) || b == ValS::Bool(false) {
                ValS::Bool(false)
            } else if a is Null || b is Null {
                ValS::Null
            } else {
                ValS::Bool(true)
            },
        ),
        bin_nullaware_s(BinOp::Coalesce, a, b) == Ok::<ValS, ErrS>(
            if !(a is Null) {
                a
            } else {
                b
            },
        ),
{
}

/// A tree whose root is a specialized node fails folding with exactly the
/// ordering-violation error.
pub proof fn lemma_fold_specialized_root<C: ExprEvalContext, O: OpBehavior>(e: ExprS, ctx: &C, ops: &O)
    requires
        ctx_wf(ctx),
        e is Bin || e is Un,
    ensures
        fold_s(e, ctx, ops) == Err::<ExprS, ErrS>(ErrS::OptimizedBeforePartialEval),
{
}

/// A tree that contains a specialized node anywhere cannot be folded: the
/// pass fails (with the ordering violation, unless an earlier child error
/// surfaces first).
pub proof fn lemma_fold_specialized_fails<C: ExprEvalContext, O: OpBehavior>(e: ExprS, ctx: &C, ops: &O)
    requires
        ctx_wf(ctx),
        has_specialized(e),
    ensures
        fold_s(e, ctx, ops) is Err,
    decreases e, 0int,
{
    match e {
        ExprS::List(l) => {
            let k = choose|k: int| 0 <= k < l.len() && has_specialized(#[trigger] l[k]);
            lemma_fold_specialized_fails(l[k], ctx, ops);
            lemma_fold_seq_err(l, ctx, ops, k);
            assert(fold_seq_s(l, ctx, ops) is Err);
        },
        ExprS::Dict(d) => {
            let k = choose|k: int| 0 <= k < d.len() && has_specialized(#[trigger] d[k].1);
            lemma_fold_specialized_fails(d[k].1, ctx, ops);
            lemma_fold_entries_err(d, ctx, ops, k);
            assert(fold_entries_s(d, ctx, ops) is Err);
        },
        ExprS::FieldAcc(f, a) => {
            assert(!(*a is Variable)) by {
                if let ExprS::Variable(n) = *a {
                    assert(!has_specialized(*a));
                }
            }
            lemma_fold_specialized_fails(*a, ctx, ops);
        },
        ExprS::IdxAcc(_, a) => {
            lemma_fold_specialized_fails(*a, ctx, ops);
        },
        ExprS::Apply(op, args) => {
            let k = choose|k: int| 0 <= k < args.len() && has_specialized(#[trigger] args[k]);
            lemma_fold_specialized_fails(args[k], ctx, ops);
            lemma_fold_seq_err(args, ctx, ops, k);
        },
        ExprS::ApplyAgg(op, a_args, args) => {
            if exists|k: int| 0 <= k < a_args.len() && has_specialized(#[trigger] a_args[k]) {
                let k = choose|k: int|
                    0 <= k < a_args.len() && has_specialized(#[trigger] a_args[k]);
                lemma_fold_specialized_fails(a_args[k], ctx, ops);
                lemma_fold_seq_err(a_args, ctx, ops, k);
            } else {
                let k = choose|k: int|
                    0 <= k < args.len() && has_specialized(#[trigger] args[k]);
                lemma_fold_specialized_fails(args[k], ctx, ops);
                lemma_fold_seq_err(args, ctx, ops, k);
            }
        },
        _ => {},
    }
}

/// If any element of a sequence fails to fold, folding the sequence fails.
proof fn lemma_fold_seq_err<C: ExprEvalContext, O: OpBehavior>(s: Seq<ExprS>, ctx: &C, ops: &O, k: int)
    requires
        ctx_wf(ctx),
        0 <= k < s.len(),
        fold_s(s[k], ctx, ops) is Err,
    ensures
        fold_seq_s(s, ctx, ops) is Err,
    decreases s.len(),
{
    if k > 0 && fold_s(s[0], ctx, ops) is Ok {
        let sub = s.subrange(1, s.len() as int);
        assert(sub[k - 1] == s[k]);
        lemma_fold_seq_err(sub, ctx, ops, k - 1);
    }
}

/// If any value of an entry sequence fails to fold, folding the entries
/// fails.
proof fn lemma_fold_entries_err<C: ExprEvalContext, O: OpBehavior>(
    s: Seq<(Seq<char>, ExprS)>,
    ctx: &C,
    ops: &O,
    k: int,
)
    requires
        ctx_wf(ctx),
        0 <= k < s.len(),
        fold_s(s[k].1, ctx, ops) is Err,
    ensures
        fold_entries_s(s, ctx, ops) is Err,
    decreases s.len(),
{
    if k > 0 && fold_s(s[0].1, ctx, ops) is Ok {
        let sub = s.subrange(1, s.len() as int);
        assert(sub[k - 1] == s[k]);
        lemma_fold_entries_err(sub, ctx, ops, k - 1);
    }
}


/// Lexicographic order is irreflexive from any position on.
proof fn lemma_str_lt_from_irrefl(a: Seq<char>, i: int)
    requires
        0 <= i,
    ensures
        !str_lt_from(a, a, i),
    decreases a.len() - i,
{
    if i < a.len() {
        lemma_str_lt_from_irrefl(a, i + 1);
    }
}

/// No string orders strictly below itself.
pub proof fn lemma_str_lt_irrefl(a: Seq<char>)
    ensures
        !str_lt(a, a),
{
    lemma_str_lt_from_irrefl(a, 0);
}

/// Under the mapping invariant the first match is the only match: a lookup
/// returns the value stored under the key, whichever entry holds it.
pub proof fn lemma_val_dict_get_unique(entries: Seq<(Seq<char>, ValS)>, key: Seq<char>, k: int)
    requires
        vkeys_sorted(entries),
        0 <= k < entries.len(),
        entries[k].0 == key,
    ensures
        val_dict_get(entries, key) == entries[k].1,
    decreases entries.len(),
{
    if k > 0 {
        assert(entries[0].0 != key) by {
            if entries[0].0 == key {
                assert(str_lt(entries[0].0, entries[k].0));
                lemma_str_lt_irrefl(key);
            }
        }
        let sub = entries.subrange(1, entries.len() as int);
        assert forall|i: int, j: int| 0 <= i < j < sub.len() implies str_lt(
            (#[trigger] sub[i]).0,
            (#[trigger] sub[j]).0,
        ) by {
            assert(sub[i] == entries[i + 1]);
            assert(sub[j] == entries[j + 1]);
        }
        assert(sub[k - 1] == entries[k]);
        lemma_val_dict_get_unique(sub, key, k - 1);
    }
}

/// Tree-valued twin of [`lemma_val_dict_get_unique`].
pub proof fn lemma_expr_dict_get_unique(entries: Seq<(Seq<char>, ExprS)>, key: Seq<char>, k: int)
    requires
        ekeys_sorted(entries),
        0 <= k < entries.len(),
        entries[k].0 == key,
    ensures
        expr_dict_get(entries, key) == entries[k].1,
    decreases entries.len(),
{
    if k > 0 {
        assert(entries[0].0 != key) by {
            if entries[0].0 == key {
                assert(str_lt(entries[0].0, entries[k].0));
                lemma_str_lt_irrefl(key);
            }
        }
        let sub = entries.subrange(1, entries.len() as int);
        assert forall|i: int, j: int| 0 <= i < j < sub.len() implies str_lt(
            (#[trigger] sub[i]).0,
            (#[trigger] sub[j]).0,
        ) by {
            assert(sub[i] == entries[i + 1]);
            assert(sub[j] == entries[j + 1]);
        }
        assert(sub[k - 1] == entries[k]);
        lemma_expr_dict_get_unique(sub, key, k - 1);
    }
}

/// A value-mapping lookup yields null or one of the stored values.
proof fn lemma_val_dict_get_cases(entries: Seq<(Seq<char>, ValS)>, key: Seq<char>)
    ensures
        val_dict_get(entries, key) == ValS::Null || exists|k: int|
            0 <= k < entries.len() && val_dict_get(entries, key) == (#[trigger] entries[k]).1,
    decreases entries.len(),
{
    if entries.len() > 0 && entries[0].0 != key {
        let sub = entries.subrange(1, entries.len() as int);
        lemma_val_dict_get_cases(sub, key);
        if val_dict_get(entries, key) != ValS::Null {
            let k = choose|k: int| 0 <= k < sub.len() && val_dict_get(sub, key) == sub[k].1;
            assert(entries[k + 1].1 == sub[k].1);
        }
    }
}


/// Specialization maps a sequence element by element.
proof fn lemma_opt_seq_index(s: Seq<ExprS>)
    ensures
        opt_seq_s(s).len() == s.len(),
        forall|i: int| 0 <= i < s.len() ==> (#[trigger] opt_seq_s(s)[i]) == optimize_s(s[i]),
    decreases s.len(),
{
    if s.len() > 0 {
        let sub = s.subrange(1, s.len() as int);
        lemma_opt_seq_index(sub);
        let r = opt_seq_s(s);
        assert(forall|i: int|
            1 <= i < s.len() ==> r[i] == opt_seq_s(sub)[i - 1] && sub[i - 1] == s[i]);
    }
}

/// Specialization maps an entry sequence value by value, keeping the keys.
proof fn lemma_opt_entries_index(s: Seq<(Seq<char>, ExprS)>)
    ensures
        opt_entries_s(s).len() == s.len(),
        forall|i: int|
            0 <= i < s.len() ==> (#[trigger] opt_entries_s(s)[i]) == (
                s[i].0,
                optimize_s(s[i].1),
            ),
    decreases s.len(),
{
    if s.len() > 0 {
        let sub = s.subrange(1, s.len() as int);
        lemma_opt_entries_index(sub);
        let r = opt_entries_s(s);
        assert(forall|i: int|
            1 <= i < s.len() ==> r[i] == opt_entries_s(sub)[i - 1] && sub[i - 1] == s[i]);
    }
}

/// Specialization preserves the mapping invariant: every mapping of the
/// rewritten tree still has unique keys in key order.
pub proof fn lemma_optimize_preserves_wf(e: ExprS)
    requires
        expr_wf(e),
    ensures
        expr_wf(optimize_s(e)),
    decreases e, 0int,
{
    match e {
        ExprS::List(l) => {
            lemma_opt_seq_index(l);
            assert forall|i: int| 0 <= i < l.len() implies expr_wf(
                #[trigger] opt_seq_s(l)[i],
            ) by {
                lemma_optimize_preserves_wf(l[i]);
            }
        },
        ExprS::Dict(d) => {
            lemma_opt_entries_index(d);
            assert forall|i: int| 0 <= i < d.len() implies expr_wf(
                (#[trigger] opt_entries_s(d)[i]).1,
            ) by {
                lemma_optimize_preserves_wf(d[i].1);
            }
            assert(ekeys_sorted(opt_entries_s(d)));
        },
        ExprS::FieldAcc(_, a) => {
            lemma_optimize_preserves_wf(*a);
        },
        ExprS::IdxAcc(_, a) => {
            lemma_optimize_preserves_wf(*a);
        },
        ExprS::Apply(op, args) => {
            match op {
                OpIdS::Bin(b) => if is_variadic(b) && args.len() >= 1 {
                    assert(decreases_to!(e => args));
                    lemma_optimize_preserves_wf(args[0]);
                    let rest = args.subrange(1, args.len() as int);
                    assert(decreases_to!(args => rest));
                    lemma_opt_chain_wf(b, optimize_s(args[0]), rest);
                } else if !is_variadic(b) && args.len() == 2 {
                    lemma_optimize_preserves_wf(args[0]);
                    lemma_optimize_preserves_wf(args[1]);
                } else {
                    lemma_opt_seq_index(args);
                    assert forall|i: int| 0 <= i < args.len() implies expr_wf(
                        #[trigger] opt_seq_s(args)[i],
                    ) by {
                        lemma_optimize_preserves_wf(args[i]);
                    }
                },
                OpIdS::Un(u) => if args.len() >= 1 {
                    lemma_optimize_preserves_wf(args[0]);
                } else {
                    lemma_opt_seq_index(args);
                },
                OpIdS::Other(_) => {
                    lemma_opt_seq_index(args);
                    assert forall|i: int| 0 <= i < args.len() implies expr_wf(
                        #[trigger] opt_seq_s(args)[i],
                    ) by {
                        lemma_optimize_preserves_wf(args[i]);
                    }
                },
            }
        },
        ExprS::ApplyAgg(_, a_args, args) => {
            lemma_opt_seq_index(a_args);
            lemma_opt_seq_index(args);
            assert forall|i: int| 0 <= i < a_args.len() implies expr_wf(
                #[trigger] opt_seq_s(a_args)[i],
            ) by {
                lemma_optimize_preserves_wf(a_args[i]);
            }
            assert forall|i: int| 0 <= i < args.len() implies expr_wf(
                #[trigger] opt_seq_s(args)[i],
            ) by {
                lemma_optimize_preserves_wf(args[i]);
            }
        },
        _ => {},
    }
}

/// The desugared chain of a variadic built-in is well-formed when its seed
/// and the remaining arguments are.
proof fn lemma_opt_chain_wf(op: BinOp, acc: ExprS, rest: Seq<ExprS>)
    requires
        expr_wf(acc),
        forall|i: int| 0 <= i < rest.len() ==> expr_wf(#[trigger] rest[i]),
    ensures
        expr_wf(opt_chain_s(op, acc, rest)),
    decreases rest, rest.len(),
{
    if rest.len() > 0 {
        lemma_optimize_preserves_wf(rest[0]);
        let sub = rest.subrange(1, rest.len() as int);
        lemma_opt_chain_wf(op, ExprS::Bin(op, Box::new(acc), Box::new(optimize_s(rest[0]))), sub);
    }
}


/// A folding context hands out only well-formed replacement trees.
pub open spec fn ctx_resolves_wf<C: ExprEvalContext>(ctx: &C) -> bool {
    forall|k: Seq<char>|
        (#[trigger] ctx.resolve_spec(k)) matches Some(e) ==> expr_wf(e)
}

/// A catalog extension keeps the mapping invariant: on well-formed inputs,
/// its evaluation entry point returns well-formed values and its folding
/// hooks return well-formed replacement trees.
pub open spec fn ops_preserve_wf<O: OpBehavior>(ops: &O) -> bool {
    (forall|name: Seq<char>, has_null: bool, args: Seq<ValS>|
        (#[trigger] ops.eval_spec(name, has_null, args)) matches Ok(v) ==> ((forall|i: int|
            0 <= i < args.len() ==> val_wf(#[trigger] args[i])) ==> val_wf(v))) && (forall|
        name: Seq<char>,
        args: Seq<ExprS>,
    |
        (#[trigger] ops.fold_hook_spec(name, args)) matches Ok(Some(x)) ==> ((forall|i: int|
            0 <= i < args.len() ==> expr_wf(#[trigger] args[i])) ==> expr_wf(x))) && (forall|
        name: Seq<char>,
        a_args: Seq<ExprS>,
        args: Seq<ExprS>,
    |
        (#[trigger] ops.fold_hook_agg_spec(name, a_args, args)) matches Ok(Some(x)) ==> ((
        (forall|i: int| 0 <= i < a_args.len() ==> expr_wf(#[trigger] a_args[i])) && (forall|
            i: int,
        | 0 <= i < args.len() ==> expr_wf(#[trigger] args[i]))) ==> expr_wf(x)))
}

/// A row context resolves tuple slots only to well-formed values.
pub open spec fn row_ctx_resolves_wf<C: RowEvalContext>(ctx: &C) -> bool {
    forall|idx: crate::value::TupleSetIdx|
        (#[trigger] ctx.resolve_spec(idx)) matches Ok(v) ==> val_wf(v)
}

/// The non-null entry points of the built-in catalog only produce scalars,
/// which are always well-formed.
proof fn lemma_bin_nonnull_wf(op: BinOp, a: ValS, b: ValS)
    ensures
        bin_nonnull_s(op, a, b) matches Ok(v) ==> val_wf(v),
{
}

/// The null-aware entry points return one of their operands or a boolean.
proof fn lemma_bin_nullaware_wf(op: BinOp, a: ValS, b: ValS)
    requires
        val_wf(a),
        val_wf(b),
    ensures
        bin_nullaware_s(op, a, b) matches Ok(v) ==> val_wf(v),
{
}

/// The left fold of the null-aware entry point keeps values well-formed.
proof fn lemma_fold_nullaware_wf(op: BinOp, acc: ValS, rest: Seq<ValS>)
    requires
        val_wf(acc),
        forall|i: int| 0 <= i < rest.len() ==> val_wf(#[trigger] rest[i]),
    ensures
        fold_nullaware_s(op, acc, rest) matches Ok(v) ==> val_wf(v),
    decreases rest.len(),
{
    if rest.len() > 0 {
        lemma_bin_nullaware_wf(op, acc, rest[0]);
        match bin_nullaware_s(op, acc, rest[0]) {
            Ok(v) => {
                let sub = rest.subrange(1, rest.len() as int);
                lemma_fold_nullaware_wf(op, v, sub);
            },
            Err(_) => {},
        }
    }
}

/// The generic evaluation entry point keeps values well-formed: built-ins
/// produce scalars or one of their operands, and a well-behaved catalog
/// extension promises the same through [`ops_preserve_wf`].
proof fn lemma_apply_generic_wf<O: OpBehavior>(
    op: OpIdS,
    has_null: bool,
    args: Seq<ValS>,
    ops: &O,
)
    requires
        ops_preserve_wf(ops),
        forall|i: int| 0 <= i < args.len() ==> val_wf(#[trigger] args[i]),
    ensures
        apply_generic_s(op, has_null, args, ops) matches Ok(v) ==> val_wf(v),
{
    match op {
        OpIdS::Bin(b) => if is_variadic(b) && args.len() >= 1 {
            lemma_fold_nullaware_wf(b, args[0], args.subrange(1, args.len() as int));
        } else if !is_variadic(b) && args.len() == 2 {
            lemma_bin_nonnull_wf(b, args[0], args[1]);
        },
        OpIdS::Un(_) => {},
        OpIdS::Other(d) => {
            assert(apply_generic_s(op, has_null, args, ops) == ops.eval_spec(
                d.name,
                has_null,
                args,
            ));
        },
    }
}


/// What folding makes of a field access is well-formed when the folded
/// inner expression is.
proof fn lemma_field_acc_fold_wf(f: Seq<char>, inner: ExprS)
    requires
        expr_wf(inner),
    ensures
        field_acc_fold_s(f, inner) matches Ok(r) ==> expr_wf(r),
{
    match inner {
        ExprS::Const(v) => {
            if let ValS::Dict(es) = v {
                lemma_val_dict_get_cases(es, f);
            }
        },
        ExprS::Dict(entries) => {
            lemma_expr_dict_get_cases(entries, f);
        },
        _ => {},
    }
}

/// What folding makes of an index access is well-formed when the folded
/// inner expression is.
proof fn lemma_idx_acc_fold_wf(i: int, inner: ExprS)
    requires
        expr_wf(inner),
    ensures
        idx_acc_fold_s(i, inner) matches Ok(r) ==> expr_wf(r),
{
}

/// Folding preserves the mapping invariant: on a well-formed tree, under a
/// context whose replacements are well-formed and a catalog extension that
/// keeps well-formedness, a successful fold is well-formed.
#[verifier::rlimit(100)]
pub proof fn lemma_fold_preserves_wf<C: ExprEvalContext, O: OpBehavior>(e: ExprS, ctx: &C, ops: &O)
    requires
        ctx_wf(ctx),
        ctx_resolves_wf(ctx),
        ops_preserve_wf(ops),
        expr_wf(e),
    ensures
        fold_s(e, ctx, ops) matches Ok(r) ==> expr_wf(r),
    decreases vrank(e, ctx), e, 0int,
{
    match e {
        ExprS::List(l) => {
            lemma_fold_seq_wf(l, ctx, ops);
        },
        ExprS::Dict(d) => {
            lemma_fold_entries_wf(d, ctx, ops);
            if let Ok(es) = fold_entries_s(d, ctx, ops) {
                assert(ekeys_sorted(es)) by {
                    assert(forall|i: int| 0 <= i < d.len() ==> (#[trigger] es[i]).0 == d[i].0);
                }
            }
        },
        ExprS::FieldAcc(f, a) => {
            match *a {
                ExprS::Variable(n) => {
                    if ctx.resolve_table_col_spec(n, f) is None {
                        if let Some(rp) = ctx.resolve_spec(n) {
                            assert(expr_wf(rp));
                            assert(vrank(*a, ctx) == ctx.var_rank(n) + 1);
                            assert(vrank(e, ctx) == ctx.var_rank(n) + 1);
                            assert(vrank(rp, ctx) <= ctx.var_rank(n));
                            lemma_fold_preserves_wf(rp, ctx, ops);
                            if let Ok(inner) = fold_s(rp, ctx, ops) {
                                lemma_field_acc_fold_wf(f, inner);
                            }
                        }
                    }
                },
                _ => {
                    assert(vrank(e, ctx) == vrank(*a, ctx));
                    lemma_fold_preserves_wf(*a, ctx, ops);
                    if let Ok(inner) = fold_s(*a, ctx, ops) {
                        lemma_field_acc_fold_wf(f, inner);
                    }
                },
            }
        },
        ExprS::IdxAcc(i, a) => {
            assert(vrank(e, ctx) == vrank(*a, ctx));
            lemma_fold_preserves_wf(*a, ctx, ops);
            if let Ok(inner) = fold_s(*a, ctx, ops) {
                lemma_idx_acc_fold_wf(i, inner);
            }
        },
        ExprS::Apply(op, args) => {
            lemma_fold_seq_wf(args, ctx, ops);
            if let Ok(fargs) = fold_seq_s(args, ctx, ops) {
                if !op_side_effect(op) {
                    match fold_hook_s(op, fargs, ops) {
                        Ok(Some(x)) => {
                            if let OpIdS::Other(d) = op {
                                assert(ops.fold_hook_spec(d.name, fargs) == Ok::<
                                    Option<ExprS>,
                                    ErrS,
                                >(Some(x)));
                            } else {
                                let vals = Seq::new(fargs.len(), |j: int| fargs[j]->Const_0);
                                assert forall|j: int| 0 <= j < vals.len() implies val_wf(
                                    #[trigger] vals[j],
                                ) by {
                                    assert(expr_wf(fargs[j]));
                                }
                                lemma_apply_generic_wf(
                                    op,
                                    exists|j: int|
                                        0 <= j < fargs.len() && (#[trigger] fargs[j])->Const_0
                                            is Null,
                                    vals,
                                    ops,
                                );
                            }
                        },
                        _ => {},
                    }
                }
            }
        },
        ExprS::ApplyAgg(op, a_args, args) => {
            lemma_fold_seq_wf(a_args, ctx, ops);
            lemma_fold_seq_wf(args, ctx, ops);
            if let Ok(fa) = fold_seq_s(a_args, ctx, ops) {
                if let Ok(fr) = fold_seq_s(args, ctx, ops) {
                    if !op_side_effect(op) {
                        match fold_hook_agg_s(op, fa, fr, ops) {
                            Ok(Some(x)) => {
                                if let OpIdS::Other(d) = op {
                                    assert(ops.fold_hook_agg_spec(d.name, fa, fr) == Ok::<
                                        Option<ExprS>,
                                        ErrS,
                                    >(Some(x)));
                                }
                            },
                            _ => {},
                        }
                    }
                }
            }
        },
        _ => {},
    }
}

/// Sequence version of [`lemma_fold_preserves_wf`].
proof fn lemma_fold_seq_wf<C: ExprEvalContext, O: OpBehavior>(s: Seq<ExprS>, ctx: &C, ops: &O)
    requires
        ctx_wf(ctx),
        ctx_resolves_wf(ctx),
        ops_preserve_wf(ops),
        forall|i: int| 0 <= i < s.len() ==> expr_wf(#[trigger] s[i]),
    ensures
        fold_seq_s(s, ctx, ops) matches Ok(r) ==> (r.len() == s.len() && (forall|i: int|
            0 <= i < r.len() ==> expr_wf(#[trigger] r[i]))),
    decreases vrank_seq(s, ctx), s, s.len(),
{
    if s.len() > 0 {
        lemma_fold_preserves_wf(s[0], ctx, ops);
        let sub = s.subrange(1, s.len() as int);
        lemma_fold_seq_wf(sub, ctx, ops);
        if let Ok(r) = fold_seq_s(s, ctx, ops) {
            let v0 = fold_s(s[0], ctx, ops)->Ok_0;
            let rest = fold_seq_s(sub, ctx, ops)->Ok_0;
            assert(r == seq![v0] + rest);
            assert(forall|i: int| 1 <= i < r.len() ==> r[i] == rest[i - 1]);
        }
    }
}

/// Entry version of [`lemma_fold_preserves_wf`]: keys are kept in place and
/// folded values are well-formed.
proof fn lemma_fold_entries_wf<C: ExprEvalContext, O: OpBehavior>(
    s: Seq<(Seq<char>, ExprS)>,
    ctx: &C,
    ops: &O,
)
    requires
        ctx_wf(ctx),
        ctx_resolves_wf(ctx),
        ops_preserve_wf(ops),
        forall|i: int| 0 <= i < s.len() ==> expr_wf((#[trigger] s[i]).1),
    ensures
        fold_entries_s(s, ctx, ops) matches Ok(r) ==> (r.len() == s.len() && (forall|i: int|
            0 <= i < r.len() ==> (#[trigger] r[i]).0 == s[i].0 && expr_wf(r[i].1))),
    decreases vrank_entries(s, ctx), s, s.len(),
{
    if s.len() > 0 {
        lemma_fold_preserves_wf(s[0].1, ctx, ops);
        let sub = s.subrange(1, s.len() as int);
        lemma_fold_entries_wf(sub, ctx, ops);
        if let Ok(r) = fold_entries_s(s, ctx, ops) {
            let v0 = fold_s(s[0].1, ctx, ops)->Ok_0;
            let rest = fold_entries_s(sub, ctx, ops)->Ok_0;
            assert(r == seq![(s[0].0, v0)] + rest);
            assert(forall|i: int|
                1 <= i < r.len() ==> r[i] == rest[i - 1] && sub[i - 1] == s[i]);
        }
    }
}


/// The non-null unary entry points only produce scalars.
proof fn lemma_un_nonnull_wf(op: UnOp, a: ValS)
    ensures
        un_nonnull_s(op, a) matches Ok(v) ==> val_wf(v),
{
}

/// Row evaluation preserves the mapping invariant: on a well-formed tree,
/// under a row context resolving slots to well-formed values and a catalog
/// extension that keeps well-formedness, a successful evaluation yields a
/// well-formed value.
#[verifier::rlimit(100)]
pub proof fn lemma_row_eval_preserves_wf<C: RowEvalContext, O: OpBehavior>(
    e: ExprS,
    ctx: &C,
    ops: &O,
)
    requires
        row_ctx_resolves_wf(ctx),
        ops_preserve_wf(ops),
        expr_wf(e),
    ensures
        row_eval_s(e, ctx, ops) matches Ok(v) ==> val_wf(v),
    decreases e, 0int,
{
    match e {
        ExprS::TupleSetIdx(i) => {
            if let Ok(v) = ctx.resolve_spec(i) {
                assert(val_wf(v));
            }
        },
        ExprS::List(l) => {
            lemma_eval_from_wf(l, 0, ctx, ops);
        },
        ExprS::Dict(d) => {
            lemma_eval_entries_from_wf(d, 0, ctx, ops);
            if let Ok(es) = eval_entries_from_s(d, 0, ctx, ops) {
                assert(vkeys_sorted(es)) by {
                    assert(forall|j: int| 0 <= j < es.len() ==> (#[trigger] es[j]).0 == d[j].0);
                }
            }
        },
        ExprS::Apply(op, args) => {
            lemma_eval_from_wf(args, 0, ctx, ops);
            if let Ok(vals) = eval_from_s(args, 0, ctx, ops) {
                lemma_apply_generic_wf(op, has_null_in(vals), vals, ops);
            }
        },
        ExprS::FieldAcc(f, a) => {
            lemma_row_eval_preserves_wf(*a, ctx, ops);
            if let Ok(v) = row_eval_s(*a, ctx, ops) {
                if let ValS::Dict(es) = v {
                    lemma_val_dict_get_cases(es, f);
                }
            }
        },
        ExprS::IdxAcc(_, a) => {
            lemma_row_eval_preserves_wf(*a, ctx, ops);
        },
        ExprS::Bin(b, l, r) => {
            lemma_row_eval_preserves_wf(*l, ctx, ops);
            lemma_row_eval_preserves_wf(*r, ctx, ops);
            if let Ok(lv) = row_eval_s(*l, ctx, ops) {
                if let Ok(rv) = row_eval_s(*r, ctx, ops) {
                    if is_variadic(b) {
                        lemma_bin_nullaware_wf(b, lv, rv);
                    } else {
                        lemma_bin_nonnull_wf(b, lv, rv);
                    }
                }
            }
        },
        ExprS::Un(u, a) => {
            lemma_row_eval_preserves_wf(*a, ctx, ops);
            if let Ok(v) = row_eval_s(*a, ctx, ops) {
                lemma_un_nonnull_wf(u, v);
            }
        },
        _ => {},
    }
}

/// Sequence version of [`lemma_row_eval_preserves_wf`], from position `i`
/// on.
proof fn lemma_eval_from_wf<C: RowEvalContext, O: OpBehavior>(
    s: Seq<ExprS>,
    i: int,
    ctx: &C,
    ops: &O,
)
    requires
        row_ctx_resolves_wf(ctx),
        ops_preserve_wf(ops),
        forall|j: int| 0 <= j < s.len() ==> expr_wf(#[trigger] s[j]),
    ensures
        eval_from_s(s, i, ctx, ops) matches Ok(vs) ==> (forall|j: int|
            0 <= j < vs.len() ==> val_wf(#[trigger] vs[j])),
    decreases s, s.len() - i,
{
    if 0 <= i < s.len() {
        lemma_row_eval_preserves_wf(s[i], ctx, ops);
        lemma_eval_from_wf(s, i + 1, ctx, ops);
        if let Ok(vs) = eval_from_s(s, i, ctx, ops) {
            let v0 = row_eval_s(s[i], ctx, ops)->Ok_0;
            let rest = eval_from_s(s, i + 1, ctx, ops)->Ok_0;
            assert(vs == seq![v0] + rest);
            assert(forall|j: int| 1 <= j < vs.len() ==> vs[j] == rest[j - 1]);
        }
    }
}

/// Entry version of [`lemma_row_eval_preserves_wf`]: keys are kept in place
/// and evaluated values are well-formed.
proof fn lemma_eval_entries_from_wf<C: RowEvalContext, O: OpBehavior>(
    s: Seq<(Seq<char>, ExprS)>,
    i: int,
    ctx: &C,
    ops: &O,
)
    requires
        row_ctx_resolves_wf(ctx),
        ops_preserve_wf(ops),
        forall|j: int| 0 <= j < s.len() ==> expr_wf((#[trigger] s[j]).1),
    ensures
        eval_entries_from_s(s, i, ctx, ops) matches Ok(es) ==> (es.len() == (if 0 <= i
            <= s.len() {
            s.len() - i
        } else {
            0
        }) && (forall|j: int|
            0 <= j < es.len() ==> (#[trigger] es[j]).0 == s[i + j].0 && val_wf(es[j].1))),
    decreases s, s.len() - i,
{
    if 0 <= i < s.len() {
        lemma_row_eval_preserves_wf(s[i].1, ctx, ops);
        lemma_eval_entries_from_wf(s, i + 1, ctx, ops);
        if let Ok(es) = eval_entries_from_s(s, i, ctx, ops) {
            let v0 = row_eval_s(s[i].1, ctx, ops)->Ok_0;
            let rest = eval_entries_from_s(s, i + 1, ctx, ops)->Ok_0;
            assert(es == seq![(s[i].0, v0)] + rest);
            assert(forall|j: int| 1 <= j < es.len() ==> es[j] == rest[j - 1]);
        }
    }
}


/// A non-empty chain of a variadic built-in ends in a specialized binary
/// node.
proof fn lemma_opt_chain_shape(op: BinOp, acc: ExprS, rest: Seq<ExprS>)
    ensures
        rest.len() > 0 ==> opt_chain_s(op, acc, rest) is Bin,
        rest.len() == 0 ==> opt_chain_s(op, acc, rest) == acc,
    decreases rest, rest.len(),
{
    if rest.len() > 0 {
        let sub = rest.subrange(1, rest.len() as int);
        lemma_opt_chain_shape(
            op,
            ExprS::Bin(op, Box::new(acc), Box::new(optimize_s(rest[0]))),
            sub,
        );
    }
}

/// Specialization is idempotent: re-running it on its own output changes
/// nothing, because every node it builds is either a specialized node —
/// which it leaves untouched — or a rewritten copy of a shape it has
/// already recursed into.
pub proof fn lemma_optimize_idempotent(e: ExprS)
    ensures
        optimize_s(optimize_s(e)) == optimize_s(e),
    decreases e, 1int,
{
    match e {
        ExprS::List(l) => {
            lemma_opt_seq_index(l);
            lemma_opt_seq_index(opt_seq_s(l));
            assert forall|i: int| 0 <= i < l.len() implies #[trigger] opt_seq_s(
                opt_seq_s(l),
            )[i] == opt_seq_s(l)[i] by {
                lemma_optimize_idempotent(l[i]);
            }
            assert(opt_seq_s(opt_seq_s(l)) =~= opt_seq_s(l));
        },
        ExprS::Dict(d) => {
            lemma_opt_entries_index(d);
            lemma_opt_entries_index(opt_entries_s(d));
            assert forall|i: int| 0 <= i < d.len() implies #[trigger] opt_entries_s(
                opt_entries_s(d),
            )[i] == opt_entries_s(d)[i] by {
                lemma_optimize_idempotent(d[i].1);
            }
            assert(opt_entries_s(opt_entries_s(d)) =~= opt_entries_s(d));
        },
        ExprS::FieldAcc(_, a) => {
            lemma_optimize_idempotent(*a);
        },
        ExprS::IdxAcc(_, a) => {
            lemma_optimize_idempotent(*a);
        },
        ExprS::Apply(op, args) => {
            match op {
                OpIdS::Bin(b) => if is_variadic(b) && args.len() >= 1 {
                    assert(decreases_to!(e => args));
                    lemma_optimize_idempotent(args[0]);
                    let rest = args.subrange(1, args.len() as int);
                    assert(decreases_to!(args => rest));
                    lemma_opt_chain_shape(b, optimize_s(args[0]), rest);
                    if rest.len() == 0 {
                        assert(optimize_s(e) == optimize_s(args[0]));
                    } else {
                        assert(optimize_s(e) is Bin);
                    }
                } else if !is_variadic(b) && args.len() == 2 {
                    assert(optimize_s(e) is Bin);
                } else {
                    lemma_apply_fallback_idempotent(e, op, args);
                },
                OpIdS::Un(u) => if args.len() >= 1 {
                    assert(optimize_s(e) is Un);
                } else {
                    lemma_apply_fallback_idempotent(e, op, args);
                },
                OpIdS::Other(_) => {
                    lemma_apply_fallback_idempotent(e, op, args);
                },
            }
        },
        ExprS::ApplyAgg(op, a_args, args) => {
            lemma_opt_seq_index(a_args);
            lemma_opt_seq_index(opt_seq_s(a_args));
            lemma_opt_seq_index(args);
            lemma_opt_seq_index(opt_seq_s(args));
            assert forall|i: int| 0 <= i < a_args.len() implies #[trigger] opt_seq_s(
                opt_seq_s(a_args),
            )[i] == opt_seq_s(a_args)[i] by {
                lemma_optimize_idempotent(a_args[i]);
            }
            assert forall|i: int| 0 <= i < args.len() implies #[trigger] opt_seq_s(
                opt_seq_s(args),
            )[i] == opt_seq_s(args)[i] by {
                lemma_optimize_idempotent(args[i]);
            }
            assert(opt_seq_s(opt_seq_s(a_args)) =~= opt_seq_s(a_args));
            assert(opt_seq_s(opt_seq_s(args)) =~= opt_seq_s(args));
        },
        _ => {},
    }
}

/// The fallback of specialization for a generic application that stays
/// generic: the operator is kept and re-running specializes the arguments a
/// second time, which changes nothing.
proof fn lemma_apply_fallback_idempotent(e: ExprS, op: OpIdS, args: Seq<ExprS>)
    requires
        e == ExprS::Apply(op, args),
        optimize_s(e) == ExprS::Apply(op, opt_seq_s(args)),
        match op {
            OpIdS::Bin(b) => if is_variadic(b) {
                args.len() < 1
            } else {
                args.len() != 2
            },
            OpIdS::Un(_) => args.len() < 1,
            OpIdS::Other(_) => true,
        },
    ensures
        optimize_s(optimize_s(e)) == optimize_s(e),
    decreases e, 0int,
{
    lemma_opt_seq_index(args);
    lemma_opt_seq_index(opt_seq_s(args));
    assert forall|i: int| 0 <= i < args.len() implies #[trigger] opt_seq_s(
        opt_seq_s(args),
    )[i] == opt_seq_s(args)[i] by {
        assert(decreases_to!(e => args));
        lemma_optimize_idempotent(args[i]);
    }
    assert(opt_seq_s(opt_seq_s(args)) =~= opt_seq_s(args));
    assert(opt_seq_s(args).len() == args.len());
}

} // verus!
