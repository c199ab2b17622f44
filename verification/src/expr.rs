//! The expression tree: the algebraic data type a query's scalar expression
//! is parsed into, rewritten by the two passes, and evaluated per row.

use vstd::prelude::*;

use crate::op::BinOp;
use crate::op::OpId;
use crate::op::OpIdS;
use crate::op::UnOp;
use crate::op::is_variadic;
use crate::op::str_lt;
use crate::value::ColId;
use crate::value::TableId;
use crate::value::TupleSetIdx;
use crate::value::ValS;
use crate::value::Value;

verus! {

/// A scalar expression.  A tree owns its children exclusively: no sharing
/// and no cycles are possible by construction.
///
/// The specialized forms `Bin` and `Un` are produced only by the
/// specialization rewriter and must never be handed to constant folding;
/// folding treats them as a fatal ordering violation.
#[derive(Debug, PartialEq)]
pub enum Expr {
    /// A constant value.
    Const(Value),
    /// A named free variable, eliminated by folding.
    Variable(String),
    /// A resolved table-column reference.
    TableCol(TableId, ColId),
    /// A resolved row-local tuple-slot reference.
    TupleSetIdx(TupleSetIdx),
    /// An ordered sequence of sub-expressions.
    List(Vec<Expr>),
    /// A key-ordered mapping from unique string keys to sub-expressions;
    /// the invariant [`expr_wf`] states the key order of its model.
    Dict(Vec<(String, Expr)>),
    /// Field access: key and inner expression.
    FieldAcc(String, Box<Expr>),
    /// Positional index access: index and inner expression.
    IdxAcc(usize, Box<Expr>),
    /// Generic application of an operator to an ordered argument list.
    Apply(OpId, Vec<Expr>),
    /// Generic aggregate application, with a seed argument list and a
    /// regular argument list.
    ApplyAgg(OpId, Vec<Expr>, Vec<Expr>),
    /// Specialized binary application of a built-in operator.
    Bin(BinOp, Box<(Expr, Expr)>),
    /// Specialized unary application of a built-in operator.
    Un(UnOp, Box<Expr>),
}

/// Mathematical model of an [`Expr`].
pub enum ExprS {
    Const(ValS),
    Variable(Seq<char>),
    TableCol(TableId, ColId),
    TupleSetIdx(TupleSetIdx),
    List(Seq<ExprS>),
    Dict(Seq<(Seq<char>, ExprS)>),
    FieldAcc(Seq<char>, Box<ExprS>),
    IdxAcc(int, Box<ExprS>),
    Apply(OpIdS, Seq<ExprS>),
    ApplyAgg(OpIdS, Seq<ExprS>, Seq<ExprS>),
    Bin(BinOp, Box<ExprS>, Box<ExprS>),
    Un(UnOp, Box<ExprS>),
}

/// Model of a sequence of expressions, element by element.
pub open spec fn eseq_view(s: Seq<Expr>) -> Seq<ExprS>
    decreases s, s.len(),
{
    if s.len() == 0 {
        Seq::empty()
    } else {
        seq![expr_view(s[0])] + eseq_view(s.subrange(1, s.len() as int))
    }
}

/// Model of a sequence of mapping entries, element by element.
pub open spec fn eentries_view(s: Seq<(String, Expr)>) -> Seq<(Seq<char>, ExprS)>
    decreases s, s.len(),
{
    if s.len() == 0 {
        Seq::empty()
    } else {
        seq![(s[0].0@, expr_view(s[0].1))] + eentries_view(s.subrange(1, s.len() as int))
    }
}

/// Model of a single expression.
pub open spec fn expr_view(e: Expr) -> ExprS
    decreases e, 0int,
{
    match e {
        Expr::Const(v) => ExprS::Const(v@),
        Expr::Variable(n) => ExprS::Variable(n@),
        Expr::TableCol(t, c) => ExprS::TableCol(t, c),
        Expr::TupleSetIdx(i) => ExprS::TupleSetIdx(i),
        Expr::List(l) => ExprS::List(eseq_view(l@)),
        Expr::Dict(d) => ExprS::Dict(eentries_view(d@)),
        Expr::FieldAcc(f, a) => ExprS::FieldAcc(f@, Box::new(expr_view(*a))),
        Expr::IdxAcc(i, a) => ExprS::IdxAcc(i as int, Box::new(expr_view(*a))),
        Expr::Apply(op, args) => ExprS::Apply(op@, eseq_view(args@)),
        Expr::ApplyAgg(op, a_args, args) => ExprS::ApplyAgg(
            op@,
            eseq_view(a_args@),
            eseq_view(args@),
        ),
        Expr::Bin(op, p) => ExprS::Bin(
            op,
            Box::new(expr_view(p.0)),
            Box::new(expr_view(p.1)),
        ),
        Expr::Un(op, a) => ExprS::Un(op, Box::new(expr_view(*a))),
    }
}

impl View for Expr {
    type V = ExprS;

    open spec fn view(&self) -> ExprS {
        expr_view(*self)
    }
}

/// The model of a sequence of expressions is as long as the sequence and is
/// the model of each element in place.
pub broadcast proof fn lemma_eseq_view(s: Seq<Expr>)
    ensures
        (#[trigger] eseq_view(s)).len() == s.len(),
        forall|i: int| 0 <= i < s.len() ==> (#[trigger] eseq_view(s)[i]) == expr_view(s[i]),
    decreases s.len(),
{
    if s.len() > 0 {
        lemma_eseq_view(s.subrange(1, s.len() as int));
    }
}

/// The model of a sequence of mapping entries is as long as the sequence and
/// models each key and value in place.
pub broadcast proof fn lemma_eentries_view(s: Seq<(String, Expr)>)
    ensures
        (#[trigger] eentries_view(s)).len() == s.len(),
        forall|i: int| 0 <= i < s.len() ==> (#[trigger] eentries_view(s)[i]) == (s[i].0@, expr_view(s[i].1)),
    decreases s.len(),
{
    if s.len() > 0 {
        lemma_eentries_view(s.subrange(1, s.len() as int));
    }
}

/// An expression and its model are always the same variant, and a constant
/// node models the constant it holds.
pub broadcast proof fn lemma_expr_view_variants(e: Expr)
    ensures
        ((#[trigger] expr_view(e)) is Const <==> e is Const),
        (expr_view(e) is Variable <==> e is Variable),
        (expr_view(e) is TableCol <==> e is TableCol),
        (expr_view(e) is TupleSetIdx <==> e is TupleSetIdx),
        (expr_view(e) is List <==> e is List),
        (expr_view(e) is Dict <==> e is Dict),
        (expr_view(e) is FieldAcc <==> e is FieldAcc),
        (expr_view(e) is IdxAcc <==> e is IdxAcc),
        (expr_view(e) is Apply <==> e is Apply),
        (expr_view(e) is ApplyAgg <==> e is ApplyAgg),
        (expr_view(e) is Bin <==> e is Bin),
        (expr_view(e) is Un <==> e is Un),
        e is Const ==> expr_view(e)->Const_0 == crate::value::val_view(e->Const_0),
{
    match e {
        Expr::Const(_) => {},
        Expr::Variable(_) => {},
        Expr::TableCol(_, _) => {},
        Expr::TupleSetIdx(_) => {},
        Expr::List(_) => {},
        Expr::Dict(_) => {},
        Expr::FieldAcc(_, _) => {},
        Expr::IdxAcc(_, _) => {},
        Expr::Apply(_, _) => {},
        Expr::ApplyAgg(_, _, _) => {},
        Expr::Bin(_, _) => {},
        Expr::Un(_, _) => {},
    }
}

/// Well-formedness of the entries of a tree-valued mapping: keys strictly
/// increase in lexicographic order, so they are unique and ordered by key.
pub open spec fn ekeys_sorted(entries: Seq<(Seq<char>, ExprS)>) -> bool {
    forall|i: int, j: int|
        0 <= i < j < entries.len() ==> str_lt((#[trigger] entries[i]).0, (#[trigger] entries[j]).0)
}

/// Well-formedness of an expression: every mapping anywhere inside it —
/// tree-valued or constant — has unique keys in key order.
pub open spec fn expr_wf(e: ExprS) -> bool
    decreases e,
{
    match e {
        ExprS::Const(v) => crate::value::val_wf(v),
        ExprS::List(l) => forall|i: int| 0 <= i < l.len() ==> expr_wf(#[trigger] l[i]),
        ExprS::Dict(d) => ekeys_sorted(d) && (forall|i: int|
            0 <= i < d.len() ==> expr_wf((#[trigger] d[i]).1)),
        ExprS::FieldAcc(_, a) => expr_wf(*a),
        ExprS::IdxAcc(_, a) => expr_wf(*a),
        ExprS::Apply(_, args) => forall|i: int| 0 <= i < args.len() ==> expr_wf(#[trigger] args[i]),
        ExprS::ApplyAgg(_, a_args, args) => (forall|i: int|
            0 <= i < a_args.len() ==> expr_wf(#[trigger] a_args[i])) && (forall|i: int|
            0 <= i < args.len() ==> expr_wf(#[trigger] args[i])),
        ExprS::Bin(_, a, b) => expr_wf(*a) && expr_wf(*b),
        ExprS::Un(_, a) => expr_wf(*a),
        _ => true,
    }
}

/// Whether an expression contains no free variable anywhere.
pub open spec fn no_vars(e: ExprS) -> bool
    decreases e,
{
    match e {
        ExprS::Variable(_) => false,
        ExprS::List(l) => forall|i: int| 0 <= i < l.len() ==> no_vars(#[trigger] l[i]),
        ExprS::Dict(d) => forall|i: int| 0 <= i < d.len() ==> no_vars(#[trigger] d[i].1),
        ExprS::FieldAcc(_, a) => no_vars(*a),
        ExprS::IdxAcc(_, a) => no_vars(*a),
        ExprS::Apply(_, args) => forall|i: int| 0 <= i < args.len() ==> no_vars(#[trigger] args[i]),
        ExprS::ApplyAgg(_, a_args, args) => (forall|i: int|
            0 <= i < a_args.len() ==> no_vars(#[trigger] a_args[i])) && (forall|i: int|
            0 <= i < args.len() ==> no_vars(#[trigger] args[i])),
        ExprS::Bin(_, a, b) => no_vars(*a) && no_vars(*b),
        ExprS::Un(_, a) => no_vars(*a),
        _ => true,
    }
}

/// Whether an expression contains a specialized node anywhere.
pub open spec fn has_specialized(e: ExprS) -> bool
    decreases e,
{
    match e {
        ExprS::Bin(_, _, _) | ExprS::Un(_, _) => true,
        ExprS::List(l) => exists|i: int| 0 <= i < l.len() && has_specialized(#[trigger] l[i]),
        ExprS::Dict(d) => exists|i: int| 0 <= i < d.len() && has_specialized(#[trigger] d[i].1),
        ExprS::FieldAcc(_, a) => has_specialized(*a),
        ExprS::IdxAcc(_, a) => has_specialized(*a),
        ExprS::Apply(_, args) => exists|i: int|
            0 <= i < args.len() && has_specialized(#[trigger] args[i]),
        ExprS::ApplyAgg(_, a_args, args) => (exists|i: int|
            0 <= i < a_args.len() && has_specialized(#[trigger] a_args[i])) || (exists|i: int|
            0 <= i < args.len() && has_specialized(#[trigger] args[i])),
        _ => false,
    }
}

/// Whether every generic application of a built-in operator in the tree has
/// the argument count the operator's arity class demands.  The specializer
/// assumes this of its input.
pub open spec fn arity_ok(e: ExprS) -> bool
    decreases e,
{
    match e {
        ExprS::List(l) => forall|i: int| 0 <= i < l.len() ==> arity_ok(#[trigger] l[i]),
        ExprS::Dict(d) => forall|i: int| 0 <= i < d.len() ==> arity_ok(#[trigger] d[i].1),
        ExprS::FieldAcc(_, a) => arity_ok(*a),
        ExprS::IdxAcc(_, a) => arity_ok(*a),
        ExprS::Apply(op, args) => apply_arity_ok(op, args.len() as int) && (forall|i: int|
            0 <= i < args.len() ==> arity_ok(#[trigger] args[i])),
        ExprS::ApplyAgg(_, a_args, args) => (forall|i: int|
            0 <= i < a_args.len() ==> arity_ok(#[trigger] a_args[i])) && (forall|i: int|
            0 <= i < args.len() ==> arity_ok(#[trigger] args[i])),
        ExprS::Bin(_, a, b) => arity_ok(*a) && arity_ok(*b),
        ExprS::Un(_, a) => arity_ok(*a),
        _ => true,
    }
}

/// The argument count a generic application of `op` must carry.
pub open spec fn apply_arity_ok(op: OpIdS, n: int) -> bool {
    match op {
        OpIdS::Bin(b) => if is_variadic(b) {
            n >= 1
        } else {
            n == 2
        },
        OpIdS::Un(_) => n == 1,
        OpIdS::Other(_) => true,
    }
}

/// Looks a key up in the entries of a tree-valued mapping: the
/// sub-expression under the first matching key, defaulting to a null
/// constant when the key is absent.
pub open spec fn expr_dict_get(entries: Seq<(Seq<char>, ExprS)>, key: Seq<char>) -> ExprS
    decreases entries.len(),
{
    if entries.len() == 0 {
        ExprS::Const(ValS::Null)
    } else if entries[0].0 == key {
        entries[0].1
    } else {
        expr_dict_get(entries.subrange(1, entries.len() as int), key)
    }
}

/// Extracts the sub-expression under `key` from the entries of a tree-valued
/// mapping that is being consumed, defaulting to a null constant.
pub fn expr_dict_remove(entries: Vec<(String, Expr)>, key: &String) -> (r: Expr)
    ensures
        r@ == expr_dict_get(eentries_view(entries@), key@),
    decreases entries@.len(),
{
    let ghost orig = entries@;
    let mut es = entries;
    if es.len() == 0 {
        Expr::Const(Value::Null)
    } else {
        let (k, v) = es.remove(0);
        if k == *key {
            v
        } else {
            proof {
                assert(es@ =~= orig.subrange(1, orig.len() as int));
                assert(eentries_view(es@) =~= eentries_view(orig).subrange(
                    1,
                    eentries_view(orig).len() as int,
                ));
            }
            expr_dict_remove(es, key)
        }
    }
}

} // verus!
