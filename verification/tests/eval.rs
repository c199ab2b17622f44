//! Tests of the evaluation core: the expression forms the parser produces,
//! run through folding, specialization and row evaluation.

use expr_eval::error::EvalError;
use expr_eval::error::ExprParseError;
use expr_eval::eval::ExprEvalContext;
use expr_eval::eval::OpBehavior;
use expr_eval::eval::RowEvalContext;
use expr_eval::expr::Expr;
use expr_eval::op::BinOp;
use expr_eval::op::OpDesc;
use expr_eval::op::OpId;
use expr_eval::op::UnOp;
use expr_eval::value::ColId;
use expr_eval::value::TableId;
use expr_eval::value::TupleSetIdx;
use expr_eval::value::Value;

fn lit_int(i: i64) -> Expr {
    Expr::Const(Value::Int(i))
}

fn lit_null() -> Expr {
    Expr::Const(Value::Null)
}

fn lit_bool(b: bool) -> Expr {
    Expr::Const(Value::Bool(b))
}

fn lit_str(s: &str) -> Expr {
    Expr::Const(Value::Str(s.to_string()))
}

fn bin(op: BinOp, args: Vec<Expr>) -> Expr {
    Expr::Apply(OpId::Bin(op), args)
}

fn un(op: UnOp, arg: Expr) -> Expr {
    Expr::Apply(OpId::Un(op), vec![arg])
}

/// A binding context with no bindings at all.
struct NoBinds;

impl ExprEvalContext for NoBinds {
    fn resolve(&self, _key: &String) -> Option<Expr> {
        None
    }

    fn resolve_table_col(&self, _binding: &String, _field: &String) -> Option<(TableId, ColId)> {
        None
    }
}

/// A binding context resolving `x` to 2, `y` to 3, and `t.col` to a table
/// column.
struct SmallBinds;

impl ExprEvalContext for SmallBinds {
    fn resolve(&self, key: &String) -> Option<Expr> {
        match key.as_str() {
            "x" => Some(lit_int(2)),
            "y" => Some(lit_int(3)),
            _ => None,
        }
    }

    fn resolve_table_col(&self, binding: &String, field: &String) -> Option<(TableId, ColId)> {
        if binding == "t" && field == "col" {
            Some((TableId(7), ColId(3)))
        } else {
            None
        }
    }
}

/// A catalog extension knowing one operator: `maxi`, the largest non-null
/// integer among the arguments (null when every argument is null), with its
/// own constant-folding hook.
struct MaxOps;

fn maxi_value(name: &String, args: &[Value]) -> Result<Value, EvalError> {
    let mut best: Option<i64> = None;
    for a in args {
        match a {
            Value::Int(i) => {
                if best.is_none() || *i > best.unwrap() {
                    best = Some(*i);
                }
            }
            Value::Null => {}
            _ => {
                let copies: Vec<Value> = args.iter().map(|v| v.duplicate()).collect();
                return Err(EvalError::OpTypeMismatch(name.clone(), copies));
            }
        }
    }
    Ok(match best {
        Some(i) => Value::Int(i),
        None => Value::Null,
    })
}

impl OpBehavior for MaxOps {
    fn eval(&self, name: &String, _has_null: bool, args: Vec<Value>) -> Result<Value, EvalError> {
        if name == "maxi" {
            maxi_value(name, &args)
        } else {
            Err(EvalError::OpTypeMismatch(name.clone(), args))
        }
    }

    fn fold_hook(&self, name: &String, args: &Vec<Expr>) -> Result<Option<Expr>, EvalError> {
        if name != "maxi" {
            return Ok(None);
        }
        let mut vals: Vec<Value> = Vec::new();
        for a in args {
            match a {
                Expr::Const(v) => vals.push(v.duplicate()),
                _ => return Ok(None),
            }
        }
        match maxi_value(name, &vals) {
            Ok(v) => Ok(Some(Expr::Const(v))),
            Err(e) => Err(e),
        }
    }

    fn fold_hook_agg(
        &self,
        _name: &String,
        _a_args: &Vec<Expr>,
        _args: &Vec<Expr>,
    ) -> Result<Option<Expr>, EvalError> {
        Ok(None)
    }
}

/// A catalog extension that must never be consulted: every entry point
/// panics.
struct NoCallOps;

impl OpBehavior for NoCallOps {
    fn eval(&self, _name: &String, _has_null: bool, _args: Vec<Value>) -> Result<Value, EvalError> {
        panic!("operator evaluation was invoked");
    }

    fn fold_hook(&self, _name: &String, _args: &Vec<Expr>) -> Result<Option<Expr>, EvalError> {
        panic!("folding hook was invoked");
    }

    fn fold_hook_agg(
        &self,
        _name: &String,
        _a_args: &Vec<Expr>,
        _args: &Vec<Expr>,
    ) -> Result<Option<Expr>, EvalError> {
        panic!("aggregate folding hook was invoked");
    }
}

/// A row context backed by a vector of slot values.
struct SlotCtx {
    vals: Vec<Value>,
}

impl RowEvalContext for SlotCtx {
    fn resolve(&self, idx: &TupleSetIdx) -> Result<Value, EvalError> {
        match self.vals.get(idx.0) {
            Some(v) => Ok(v.duplicate()),
            None => Err(EvalError::UnresolveTupleIdx(*idx)),
        }
    }
}

#[test]
fn evaluations() {
    // 123
    assert_eq!(lit_int(123).row_eval(&(), &()).unwrap(), Value::Int(123));
    // 123 + 457
    assert_eq!(
        bin(BinOp::Add, vec![lit_int(123), lit_int(457)]).row_eval(&(), &()).unwrap(),
        Value::Int(580)
    );
    // '123' ++ '457.1'
    assert_eq!(
        bin(BinOp::StrCat, vec![lit_str("123"), lit_str("457.1")])
            .row_eval(&(), &())
            .unwrap(),
        Value::Str("123457.1".to_string())
    );
    // null ~ null ~ 123 ~ null
    assert_eq!(
        bin(BinOp::Coalesce, vec![lit_null(), lit_null(), lit_int(123), lit_null()])
            .row_eval(&(), &())
            .unwrap(),
        Value::Int(123)
    );
    // 2*3+1/10
    assert_eq!(
        bin(
            BinOp::Add,
            vec![
                bin(BinOp::Mul, vec![lit_int(2), lit_int(3)]),
                bin(BinOp::Div, vec![lit_int(1), lit_int(10)]),
            ],
        )
        .row_eval(&(), &())
        .unwrap(),
        Value::Int(6)
    );
    // 1>null
    assert_eq!(
        bin(BinOp::Gt, vec![lit_int(1), lit_null()]).row_eval(&(), &()).unwrap(),
        Value::Null
    );
    // 'c'>'d'
    assert_eq!(
        bin(BinOp::Gt, vec![lit_str("c"), lit_str("d")]).row_eval(&(), &()).unwrap(),
        Value::Bool(false)
    );
    // null && true && null
    assert_eq!(
        bin(BinOp::And, vec![lit_null(), lit_bool(true), lit_null()])
            .row_eval(&(), &())
            .unwrap(),
        Value::Null
    );
    // null && false && null
    assert_eq!(
        bin(BinOp::And, vec![lit_null(), lit_bool(false), lit_null()])
            .row_eval(&(), &())
            .unwrap(),
        Value::Bool(false)
    );
    // null || true || null
    assert_eq!(
        bin(BinOp::Or, vec![lit_null(), lit_bool(true), lit_null()])
            .row_eval(&(), &())
            .unwrap(),
        Value::Bool(true)
    );
    // null || false || null
    assert_eq!(
        bin(BinOp::Or, vec![lit_null(), lit_bool(false), lit_null()])
            .row_eval(&(), &())
            .unwrap(),
        Value::Null
    );
    // !true (boolean negate)
    assert_eq!(
        un(UnOp::Negate, lit_bool(true)).row_eval(&(), &()).unwrap(),
        Value::Bool(false)
    );
    // !null (not-null test: sees the null directly, yields a non-null boolean)
    assert_eq!(
        un(UnOp::NotNull, lit_null()).row_eval(&(), &()).unwrap(),
        Value::Bool(false)
    );
}

#[test]
fn full_pipeline_round_trip() {
    // 2*3+1/10 folds to a single constant, specializes trivially, and
    // row-evaluates to 6 under the integer catalog.
    let tree = bin(
        BinOp::Add,
        vec![
            bin(BinOp::Mul, vec![lit_int(2), lit_int(3)]),
            bin(BinOp::Div, vec![lit_int(1), lit_int(10)]),
        ],
    );
    let folded = tree.partial_eval(&NoBinds, &()).unwrap();
    assert_eq!(folded, lit_int(6));
    let optimized = folded.optimize_ops();
    assert_eq!(optimized.row_eval(&(), &()).unwrap(), Value::Int(6));
}

#[test]
fn folding_is_idempotent_without_variables() {
    let make = || {
        Expr::List(vec![
            bin(BinOp::Add, vec![lit_int(2), lit_int(3)]),
            Expr::Dict(vec![("a".to_string(), bin(BinOp::Mul, vec![lit_int(2), lit_int(2)]))]),
        ])
    };
    let folded = make().partial_eval(&NoBinds, &()).unwrap();
    let expected = Expr::List(vec![
        lit_int(5),
        Expr::Dict(vec![("a".to_string(), lit_int(4))]),
    ]);
    assert_eq!(folded, expected);
    let refolded = folded.partial_eval(&NoBinds, &()).unwrap();
    assert_eq!(refolded, expected);
}

#[test]
fn folding_resolves_variables() {
    let tree = bin(BinOp::Add, vec![Expr::Variable("x".to_string()), lit_int(3)]);
    assert_eq!(tree.partial_eval(&SmallBinds, &()).unwrap(), lit_int(5));
    let unresolved = Expr::Variable("zzz".to_string()).partial_eval(&SmallBinds, &());
    assert_eq!(
        unresolved.unwrap_err(),
        EvalError::UnresolvedVariable("zzz".to_string())
    );
}

#[test]
fn field_access_fast_path_becomes_table_col() {
    let tree = Expr::FieldAcc(
        "col".to_string(),
        Box::new(Expr::Variable("t".to_string())),
    );
    assert_eq!(
        tree.partial_eval(&SmallBinds, &()).unwrap(),
        Expr::TableCol(TableId(7), ColId(3))
    );
}

#[test]
fn constant_binary_operators_fold_exactly() {
    let cases: Vec<(BinOp, i64, i64, i64)> = vec![
        (BinOp::Add, 2, 3, 5),
        (BinOp::Sub, 5, 2, 3),
        (BinOp::Mul, 6, 7, 42),
        (BinOp::Div, 7, 2, 3),
        (BinOp::Div, -7, 2, -3),
        (BinOp::Mod, 7, 2, 1),
        (BinOp::Mod, -7, 2, -1),
        (BinOp::Pow, 2, 10, 1024),
    ];
    for (op, a, b, expect) in cases {
        let folded = bin(op, vec![lit_int(a), lit_int(b)]).partial_eval(&NoBinds, &()).unwrap();
        assert_eq!(folded, lit_int(expect));
    }
}

#[test]
fn constant_comparisons_fold_exactly() {
    let cases: Vec<(BinOp, i64, i64, bool)> = vec![
        (BinOp::Eq, 2, 2, true),
        (BinOp::Ne, 2, 2, false),
        (BinOp::Gt, 3, 2, true),
        (BinOp::Ge, 2, 2, true),
        (BinOp::Lt, 3, 2, false),
        (BinOp::Le, 2, 3, true),
    ];
    for (op, a, b, expect) in cases {
        let folded = bin(op, vec![lit_int(a), lit_int(b)]).partial_eval(&NoBinds, &()).unwrap();
        assert_eq!(folded, lit_bool(expect));
    }
    let s = bin(BinOp::Lt, vec![lit_str("ab"), lit_str("b")])
        .partial_eval(&NoBinds, &())
        .unwrap();
    assert_eq!(s, lit_bool(true));
}

#[test]
fn constant_unary_operators_fold_exactly() {
    assert_eq!(
        un(UnOp::Negate, lit_bool(false)).partial_eval(&NoBinds, &()).unwrap(),
        lit_bool(true)
    );
    assert_eq!(un(UnOp::Minus, lit_int(9)).partial_eval(&NoBinds, &()).unwrap(), lit_int(-9));
    assert_eq!(
        un(UnOp::IsNull, lit_null()).partial_eval(&NoBinds, &()).unwrap(),
        lit_bool(true)
    );
    assert_eq!(
        un(UnOp::NotNull, lit_int(1)).partial_eval(&NoBinds, &()).unwrap(),
        lit_bool(true)
    );
}

#[test]
fn arithmetic_edges_are_type_mismatches() {
    let overflow = bin(BinOp::Add, vec![lit_int(i64::MAX), lit_int(1)]).row_eval(&(), &());
    assert!(matches!(overflow, Err(EvalError::OpTypeMismatch(_, _))));
    let div_zero = bin(BinOp::Div, vec![lit_int(1), lit_int(0)]).row_eval(&(), &());
    assert!(matches!(div_zero, Err(EvalError::OpTypeMismatch(_, _))));
    let neg_exp = bin(BinOp::Pow, vec![lit_int(2), lit_int(-1)]).row_eval(&(), &());
    assert!(matches!(neg_exp, Err(EvalError::OpTypeMismatch(_, _))));
    let pow_overflow = bin(BinOp::Pow, vec![lit_int(2), lit_int(64)]).row_eval(&(), &());
    assert!(matches!(pow_overflow, Err(EvalError::OpTypeMismatch(_, _))));
    let min_minus = un(UnOp::Minus, lit_int(i64::MIN)).row_eval(&(), &());
    assert!(matches!(min_minus, Err(EvalError::OpTypeMismatch(_, _))));
    let bad_add = bin(BinOp::Add, vec![lit_int(1), lit_bool(true)]).row_eval(&(), &());
    assert!(matches!(bad_add, Err(EvalError::OpTypeMismatch(_, _))));
}

#[test]
fn specialization_keeps_unknown_operators_generic() {
    let frob = || OpId::Other(OpDesc {
        name: "frob".to_string(),
        has_side_effect: false,
    });
    let tree = Expr::Apply(frob(), vec![bin(BinOp::Add, vec![lit_int(1), lit_int(2)])]);
    let optimized = tree.optimize_ops();
    let expected = Expr::Apply(
        frob(),
        vec![Expr::Bin(BinOp::Add, Box::new((lit_int(1), lit_int(2))))],
    );
    assert_eq!(optimized, expected);
}

#[test]
fn specialization_desugars_variadic_chains() {
    let tree = bin(BinOp::Coalesce, vec![lit_null(), lit_null(), lit_int(5)]);
    let optimized = tree.optimize_ops();
    let expected = Expr::Bin(
        BinOp::Coalesce,
        Box::new((
            Expr::Bin(BinOp::Coalesce, Box::new((lit_null(), lit_null()))),
            lit_int(5),
        )),
    );
    assert_eq!(optimized, expected);
    assert_eq!(expected.row_eval(&(), &()).unwrap(), Value::Int(5));
}

#[test]
fn specialization_builds_binary_and_unary_nodes() {
    let tree = bin(BinOp::Add, vec![lit_int(1), lit_int(2)]);
    assert_eq!(
        tree.optimize_ops(),
        Expr::Bin(BinOp::Add, Box::new((lit_int(1), lit_int(2))))
    );
    let utree = un(UnOp::Negate, lit_bool(true));
    assert_eq!(
        utree.optimize_ops(),
        Expr::Un(UnOp::Negate, Box::new(lit_bool(true)))
    );
}

#[test]
fn null_propagates_without_invoking_the_operator() {
    // A string operand would be a type mismatch if the operator were
    // consulted; the null short-circuit must win.
    let l = Expr::Bin(BinOp::Add, Box::new((lit_null(), lit_str("boom"))));
    assert_eq!(l.row_eval(&(), &()).unwrap(), Value::Null);
    let r = Expr::Bin(BinOp::Add, Box::new((lit_str("boom"), lit_null())));
    assert_eq!(r.row_eval(&(), &()).unwrap(), Value::Null);
    let u = Expr::Un(UnOp::Minus, Box::new(lit_null()));
    assert_eq!(u.row_eval(&(), &()).unwrap(), Value::Null);
    // The is-null family sees the null instead of short-circuiting it.
    let seen = Expr::Un(UnOp::IsNull, Box::new(lit_null()));
    assert_eq!(seen.row_eval(&(), &()).unwrap(), Value::Bool(true));
}

#[test]
fn three_valued_logic_pairs() {
    let or2 = |a: Expr, b: Expr| Expr::Bin(BinOp::Or, Box::new((a, b))).row_eval(&(), &()).unwrap();
    let and2 = |a: Expr, b: Expr| Expr::Bin(BinOp::And, Box::new((a, b))).row_eval(&(), &()).unwrap();
    assert_eq!(or2(lit_null(), lit_bool(true)), Value::Bool(true));
    assert_eq!(or2(lit_null(), lit_bool(false)), Value::Null);
    assert_eq!(or2(lit_bool(false), lit_bool(false)), Value::Bool(false));
    assert_eq!(and2(lit_null(), lit_bool(false)), Value::Bool(false));
    assert_eq!(and2(lit_null(), lit_bool(true)), Value::Null);
    assert_eq!(and2(lit_bool(true), lit_bool(true)), Value::Bool(true));
    let co = |a: Expr, b: Expr| {
        Expr::Bin(BinOp::Coalesce, Box::new((a, b))).row_eval(&(), &()).unwrap()
    };
    assert_eq!(co(lit_null(), lit_int(5)), Value::Int(5));
    assert_eq!(co(lit_int(4), lit_int(5)), Value::Int(4));
    assert_eq!(co(lit_null(), lit_null()), Value::Null);
}

#[test]
fn field_access_rules_at_row_time() {
    let on_null = Expr::FieldAcc("k".to_string(), Box::new(lit_null()));
    assert_eq!(on_null.row_eval(&(), &()).unwrap(), Value::Null);
    let dict = Expr::Const(Value::Dict(vec![("a".to_string(), Value::Int(7))]));
    let missing = Expr::FieldAcc("b".to_string(), Box::new(dict));
    assert_eq!(missing.row_eval(&(), &()).unwrap(), Value::Null);
    let hit = Expr::FieldAcc(
        "a".to_string(),
        Box::new(Expr::Const(Value::Dict(vec![("a".to_string(), Value::Int(7))]))),
    );
    assert_eq!(hit.row_eval(&(), &()).unwrap(), Value::Int(7));
    let wrong = Expr::FieldAcc("a".to_string(), Box::new(lit_int(3))).row_eval(&(), &());
    assert_eq!(
        wrong.unwrap_err(),
        EvalError::FieldAccess("a".to_string(), Value::Int(3))
    );
}

#[test]
fn index_access_rules_at_row_time() {
    let on_null = Expr::IdxAcc(0, Box::new(lit_null()));
    assert_eq!(on_null.row_eval(&(), &()).unwrap(), Value::Null);
    let list = || Expr::Const(Value::List(vec![Value::Int(10), Value::Int(20)]));
    let out = Expr::IdxAcc(5, Box::new(list()));
    assert_eq!(out.row_eval(&(), &()).unwrap(), Value::Null);
    let hit = Expr::IdxAcc(1, Box::new(list()));
    assert_eq!(hit.row_eval(&(), &()).unwrap(), Value::Int(20));
    let wrong = Expr::IdxAcc(0, Box::new(lit_bool(true))).row_eval(&(), &());
    assert_eq!(
        wrong.unwrap_err(),
        EvalError::IndexAccess(0, Value::Bool(true))
    );
}

#[test]
fn access_rules_during_folding() {
    let missing = Expr::FieldAcc(
        "b".to_string(),
        Box::new(Expr::Const(Value::Dict(vec![("a".to_string(), Value::Int(7))]))),
    );
    assert_eq!(missing.partial_eval(&NoBinds, &()).unwrap(), lit_null());
    let tree_list = Expr::IdxAcc(
        1,
        Box::new(Expr::List(vec![lit_int(10), bin(BinOp::Add, vec![lit_int(1), lit_int(1)])])),
    );
    assert_eq!(tree_list.partial_eval(&NoBinds, &()).unwrap(), lit_int(2));
    let wrong = Expr::FieldAcc("a".to_string(), Box::new(lit_int(3))).partial_eval(&NoBinds, &());
    assert_eq!(
        wrong.unwrap_err(),
        EvalError::FieldAccess("a".to_string(), Value::Int(3))
    );
    let deferred = Expr::FieldAcc("k".to_string(), Box::new(Expr::TupleSetIdx(TupleSetIdx(0))));
    let kept = deferred.partial_eval(&NoBinds, &()).unwrap();
    assert_eq!(
        kept,
        Expr::FieldAcc("k".to_string(), Box::new(Expr::TupleSetIdx(TupleSetIdx(0))))
    );
    let ctx = SlotCtx {
        vals: vec![Value::Dict(vec![("k".to_string(), Value::Int(9))])],
    };
    assert_eq!(kept.row_eval(&ctx, &()).unwrap(), Value::Int(9));
}

#[test]
fn ordering_violation_is_fatal() {
    let root = Expr::Bin(BinOp::Add, Box::new((lit_int(1), lit_int(2))));
    assert_eq!(
        root.partial_eval(&NoBinds, &()).unwrap_err(),
        EvalError::OptimizedBeforePartialEval
    );
    let nested = Expr::List(vec![lit_int(1), Expr::Un(UnOp::Negate, Box::new(lit_bool(true)))]);
    assert_eq!(
        nested.partial_eval(&NoBinds, &()).unwrap_err(),
        EvalError::OptimizedBeforePartialEval
    );
}

#[test]
fn resolution_failures_carry_their_subject() {
    let var = Expr::Variable("v".to_string()).row_eval(&(), &());
    assert_eq!(var.unwrap_err(), EvalError::UnresolvedVariable("v".to_string()));
    let col = Expr::TableCol(TableId(1), ColId(2)).row_eval(&(), &());
    assert_eq!(col.unwrap_err(), EvalError::UnresolveTableCol(TableId(1), ColId(2)));
    let slot = Expr::TupleSetIdx(TupleSetIdx(4)).row_eval(&(), &());
    assert_eq!(slot.unwrap_err(), EvalError::UnresolveTupleIdx(TupleSetIdx(4)));
    let ctx = SlotCtx { vals: vec![Value::Int(11)] };
    assert_eq!(
        Expr::TupleSetIdx(TupleSetIdx(0)).row_eval(&ctx, &()).unwrap(),
        Value::Int(11)
    );
}

#[test]
fn arity_mismatch_is_reported() {
    let row = bin(BinOp::Add, vec![lit_int(1)]).row_eval(&(), &());
    assert_eq!(row.unwrap_err(), EvalError::ArityMismatch("+".to_string(), 1));
    let fold = bin(BinOp::Add, vec![Expr::TupleSetIdx(TupleSetIdx(0))]).partial_eval(&NoBinds, &());
    assert_eq!(fold.unwrap_err(), EvalError::ArityMismatch("+".to_string(), 1));
}

#[test]
fn aggregates_refuse_row_evaluation() {
    let agg = Expr::ApplyAgg(
        OpId::Other(OpDesc {
            name: "sum".to_string(),
            has_side_effect: false,
        }),
        vec![],
        vec![lit_int(1)],
    );
    assert_eq!(
        agg.row_eval(&(), &()).unwrap_err(),
        EvalError::AggregateOutsideAggregation
    );
}

#[test]
fn side_effecting_operators_never_fold() {
    let dice = || OpId::Other(OpDesc {
        name: "dice".to_string(),
        has_side_effect: true,
    });
    let tree = Expr::Apply(dice(), vec![bin(BinOp::Add, vec![lit_int(1), lit_int(2)])]);
    let folded = tree.partial_eval(&NoBinds, &()).unwrap();
    // The arguments fold, the application itself survives.
    assert_eq!(folded, Expr::Apply(dice(), vec![lit_int(3)]));
    // The empty catalog extension refuses the operator at row time.
    let ran = folded.row_eval(&(), &());
    assert!(matches!(ran, Err(EvalError::OpTypeMismatch(_, _))));
}

#[test]
fn containers_evaluate_in_order() {
    let tree = Expr::List(vec![
        bin(BinOp::Add, vec![lit_int(1), lit_int(1)]),
        Expr::Dict(vec![("k".to_string(), lit_int(3))]),
    ]);
    assert_eq!(
        tree.row_eval(&(), &()).unwrap(),
        Value::List(vec![
            Value::Int(2),
            Value::Dict(vec![("k".to_string(), Value::Int(3))]),
        ])
    );
}

#[test]
fn parse_errors_pass_through_unchanged() {
    let e = EvalError::Parse(ExprParseError {
        message: "unexpected token".to_string(),
    });
    assert!(matches!(e, EvalError::Parse(_)));
}

#[test]
fn values_duplicate_deeply() {
    let v = Value::Dict(vec![
        (
            "l".to_string(),
            Value::List(vec![Value::Str("s".to_string()), Value::Null]),
        ),
        ("i".to_string(), Value::Int(3)),
    ]);
    assert_eq!(v.duplicate(), v);
}

#[test]
fn foreign_operators_evaluate_through_the_interface() {
    let maxi = || OpId::Other(OpDesc {
        name: "maxi".to_string(),
        has_side_effect: false,
    });
    // Row evaluation dispatches to the operator's own entry point, which
    // sees the nulls and applies its own null policy.
    let tree = Expr::Apply(maxi(), vec![lit_int(3), lit_null(), lit_int(7)]);
    assert_eq!(tree.row_eval(&(), &MaxOps).unwrap(), Value::Int(7));
    let all_null = Expr::Apply(maxi(), vec![lit_null(), lit_null()]);
    assert_eq!(all_null.row_eval(&(), &MaxOps).unwrap(), Value::Null);
    // Folding offers constant arguments to the operator's own hook.
    let foldable = Expr::Apply(maxi(), vec![lit_int(1), lit_int(2)]);
    assert_eq!(foldable.partial_eval(&NoBinds, &MaxOps).unwrap(), lit_int(2));
    // With a non-constant argument the hook declines and the application
    // survives with folded arguments.
    let deferred = Expr::Apply(
        maxi(),
        vec![bin(BinOp::Add, vec![lit_int(1), lit_int(1)]), Expr::TupleSetIdx(TupleSetIdx(0))],
    );
    assert_eq!(
        deferred.partial_eval(&NoBinds, &MaxOps).unwrap(),
        Expr::Apply(maxi(), vec![lit_int(2), Expr::TupleSetIdx(TupleSetIdx(0))])
    );
    // An operator the extension does not know is still refused.
    let unknown = Expr::Apply(
        OpId::Other(OpDesc { name: "frob".to_string(), has_side_effect: false }),
        vec![lit_int(1)],
    );
    assert!(matches!(unknown.row_eval(&(), &MaxOps), Err(EvalError::OpTypeMismatch(_, _))));
}

#[test]
fn specialized_nodes_never_consult_the_operator_interface() {
    // A stub that panics if any entry point runs: the built-in specialized
    // nodes dispatch inside the catalog, and a null operand short-circuits
    // before any operator logic.
    let e = Expr::Bin(BinOp::Add, Box::new((lit_null(), lit_str("boom"))));
    assert_eq!(e.row_eval(&(), &NoCallOps).unwrap(), Value::Null);
    let u = Expr::Un(UnOp::Minus, Box::new(lit_null()));
    assert_eq!(u.row_eval(&(), &NoCallOps).unwrap(), Value::Null);
    let c = Expr::Bin(BinOp::And, Box::new((lit_null(), lit_bool(false))));
    assert_eq!(c.row_eval(&(), &NoCallOps).unwrap(), Value::Bool(false));
}

#[test]
fn specialization_is_idempotent() {
    let make = || bin(
        BinOp::Coalesce,
        vec![
            lit_null(),
            bin(BinOp::Add, vec![lit_int(1), lit_int(2)]),
            Expr::Apply(
                OpId::Other(OpDesc { name: "frob".to_string(), has_side_effect: false }),
                vec![un(UnOp::Negate, lit_bool(true))],
            ),
        ],
    );
    let once = make().optimize_ops();
    let twice = make().optimize_ops().optimize_ops();
    assert_eq!(twice, once);
}
