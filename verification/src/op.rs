//! The operator catalog: identities of the built-in operators, the pluggable
//! descriptor for operators outside the catalog, and the null-aware
//! evaluation entry points the tree passes dispatch to.
//!
//! The built-in catalog works on integers, booleans and strings; applying an
//! operator outside its domain is an [`EvalError::OpTypeMismatch`].

use vstd::prelude::*;
use vstd::string::StrSliceExecFns;
use vstd::string::StringExecFns;

use crate::error::ErrS;
use crate::error::EvalError;
use crate::value::ValS;
use crate::value::Value;
use crate::value::vals_view;

verus! {

broadcast use crate::value::lemma_vals_view;

/// Identity of a built-in binary operator.  The three variadic operators
/// (coalesce, boolean or, boolean and) also appear here because the
/// specializer desugars their n-ary applications into binary chains.
#[derive(Clone, Copy, PartialEq, Eq, Structural, Debug)]
pub enum BinOp {
    Add,
    Sub,
    Mul,
    Div,
    Pow,
    Mod,
    StrCat,
    Eq,
    Ne,
    Gt,
    Ge,
    Lt,
    Le,
    Coalesce,
    Or,
    And,
}

/// Identity of a built-in unary operator.
#[derive(Clone, Copy, PartialEq, Eq, Structural, Debug)]
pub enum UnOp {
    Negate,
    Minus,
    IsNull,
    NotNull,
}

/// Descriptor of an operator outside the built-in catalog: its name and its
/// side-effect flag.  Side-effecting operators are never constant-folded.
/// The operator's behavior — its evaluation entry point and folding hooks —
/// is supplied by the caller through the evaluation passes' `OpBehavior`
/// parameter and looked up by this name.
#[derive(Debug, PartialEq)]
pub struct OpDesc {
    pub name: String,
    pub has_side_effect: bool,
}

/// Identity of any operator a generic application node can carry.
#[derive(Debug, PartialEq)]
pub enum OpId {
    Bin(BinOp),
    Un(UnOp),
    Other(OpDesc),
}

/// Mathematical model of an [`OpDesc`].
pub struct OpDescS {
    pub name: Seq<char>,
    pub has_side_effect: bool,
}

/// Mathematical model of an [`OpId`].
pub enum OpIdS {
    Bin(BinOp),
    Un(UnOp),
    Other(OpDescS),
}

impl View for OpDesc {
    type V = OpDescS;

    open spec fn view(&self) -> OpDescS {
        OpDescS { name: self.name@, has_side_effect: self.has_side_effect }
    }
}

impl View for OpId {
    type V = OpIdS;

    open spec fn view(&self) -> OpIdS {
        match *self {
            OpId::Bin(b) => OpIdS::Bin(b),
            OpId::Un(u) => OpIdS::Un(u),
            OpId::Other(d) => OpIdS::Other(d@),
        }
    }
}

/// Whether a built-in binary operator takes any number of arguments in a
/// generic application (the specializer desugars it into a binary chain).
pub open spec fn is_variadic(op: BinOp) -> bool {
    op == BinOp::Coalesce || op == BinOp::Or || op == BinOp::And
}

/// Whether a built-in unary operator must see null operands directly instead
/// of having null propagated past it.
pub open spec fn sees_null(op: UnOp) -> bool {
    op == UnOp::IsNull || op == UnOp::NotNull
}

/// Whether an operator may have side effects; built-ins never do.
pub open spec fn op_side_effect(op: OpIdS) -> bool {
    match op {
        OpIdS::Other(d) => d.has_side_effect,
        _ => false,
    }
}

/// Display name of a built-in binary operator.
pub open spec fn bin_name_s(op: BinOp) -> Seq<char> {
    match op {
        BinOp::Add => "+"@,
        BinOp::Sub => "-"@,
        BinOp::Mul => "*"@,
        BinOp::Div => "/"@,
        BinOp::Pow => "**"@,
        BinOp::Mod => "%"@,
        BinOp::StrCat => "++"@,
        BinOp::Eq => "=="@,
        BinOp::Ne => "!="@,
        BinOp::Gt => ">"@,
        BinOp::Ge => ">="@,
        BinOp::Lt => "<"@,
        BinOp::Le => "<="@,
        BinOp::Coalesce => "~"@,
        BinOp::Or => "||"@,
        BinOp::And => "&&"@,
    }
}

/// Display name of a built-in unary operator.
pub open spec fn un_name_s(op: UnOp) -> Seq<char> {
    match op {
        UnOp::Negate => "!"@,
        UnOp::Minus => "--"@,
        UnOp::IsNull => "is_null"@,
        UnOp::NotNull => "not_null"@,
    }
}

/// Display name of any operator identity.
pub open spec fn op_name_s(op: OpIdS) -> Seq<char> {
    match op {
        OpIdS::Bin(b) => bin_name_s(b),
        OpIdS::Un(u) => un_name_s(u),
        OpIdS::Other(d) => d.name,
    }
}

impl BinOp {
    /// Executable twin of [`is_variadic`].
    pub fn variadic(&self) -> (r: bool)
        ensures
            r == is_variadic(*self),
    {
        matches!(*self, BinOp::Coalesce | BinOp::Or | BinOp::And)
    }

    /// Display name of the operator.
    pub fn name(&self) -> (r: String)
        ensures
            r@ == bin_name_s(*self),
    {
        match *self {
            BinOp::Add => "+".to_owned(),
            BinOp::Sub => "-".to_owned(),
            BinOp::Mul => "*".to_owned(),
            BinOp::Div => "/".to_owned(),
            BinOp::Pow => "**".to_owned(),
            BinOp::Mod => "%".to_owned(),
            BinOp::StrCat => "++".to_owned(),
            BinOp::Eq => "==".to_owned(),
            BinOp::Ne => "!=".to_owned(),
            BinOp::Gt => ">".to_owned(),
            BinOp::Ge => ">=".to_owned(),
            BinOp::Lt => "<".to_owned(),
            BinOp::Le => "<=".to_owned(),
            BinOp::Coalesce => "~".to_owned(),
            BinOp::Or => "||".to_owned(),
            BinOp::And => "&&".to_owned(),
        }
    }
}

impl UnOp {
    /// Executable twin of [`sees_null`].
    pub fn null_seeing(&self) -> (r: bool)
        ensures
            r == sees_null(*self),
    {
        matches!(*self, UnOp::IsNull | UnOp::NotNull)
    }

    /// Display name of the operator.
    pub fn name(&self) -> (r: String)
        ensures
            r@ == un_name_s(*self),
    {
        match *self {
            UnOp::Negate => "!".to_owned(),
            UnOp::Minus => "--".to_owned(),
            UnOp::IsNull => "is_null".to_owned(),
            UnOp::NotNull => "not_null".to_owned(),
        }
    }
}

/// Lexicographic comparison of two strings from position `i` on, by unicode
/// code point.
pub open spec fn str_lt_from(a: Seq<char>, b: Seq<char>, i: int) -> bool
    decreases b.len() - i,
{
    if i >= b.len() {
        false
    } else if i >= a.len() {
        true
    } else if a[i] != b[i] {
        (a[i] as u32) < (b[i] as u32)
    } else {
        str_lt_from(a, b, i + 1)
    }
}

/// Strict lexicographic order on strings, by unicode code point.
pub open spec fn str_lt(a: Seq<char>, b: Seq<char>) -> bool {
    str_lt_from(a, b, 0)
}

/// Executable twin of [`str_lt`].
pub fn str_lt_exec(a: &String, b: &String) -> (r: bool)
    ensures
        r == str_lt(a@, b@),
{
    let alen = a.as_str().unicode_len();
    let blen = b.as_str().unicode_len();
    let mut i: usize = 0;
    loop
        invariant
            i <= alen,
            i <= blen,
            alen == a@.len(),
            blen == b@.len(),
            str_lt(a@, b@) == str_lt_from(a@, b@, i as int),
        decreases blen - i,
    {
        if i >= blen {
            return false;
        }
        if i >= alen {
            return true;
        }
        let ca = a.as_str().get_char(i);
        let cb = b.as_str().get_char(i);
        if ca != cb {
            return (ca as u32) < (cb as u32);
        }
        i += 1;
    }
}

/// The type-mismatch error for a binary application.
pub open spec fn mism2_s(op: BinOp, a: ValS, b: ValS) -> ErrS {
    ErrS::OpTypeMismatch(bin_name_s(op), seq![a, b])
}

/// The type-mismatch error for a unary application.
pub open spec fn mism1_s(op: UnOp, a: ValS) -> ErrS {
    ErrS::OpTypeMismatch(un_name_s(op), seq![a])
}

/// Builds the type-mismatch error for a binary application.
fn mismatch2(op: BinOp, a: Value, b: Value) -> (e: EvalError)
    ensures
        e@ == mism2_s(op, a@, b@),
{
    let ghost va = a@;
    let ghost vb = b@;
    let args = vec![a, b];
    proof {
        assert(vals_view(args@) =~= seq![va, vb]);
    }
    EvalError::OpTypeMismatch(op.name(), args)
}

/// Builds the type-mismatch error for a unary application.
fn mismatch1(op: UnOp, a: Value) -> (e: EvalError)
    ensures
        e@ == mism1_s(op, a@),
{
    let ghost va = a@;
    let args = vec![a];
    proof {
        assert(vals_view(args@) =~= seq![va]);
    }
    EvalError::OpTypeMismatch(op.name(), args)
}

/// Integer power with the overflow behaviour of repeated `checked_mul`:
/// `None` on a negative exponent or on overflow anywhere along the chain.
pub open spec fn pow_i64_s(base: i64, exp: i64) -> Option<i64>
    decreases exp,
{
    if exp < 0 {
        None
    } else if exp == 0 {
        Some(1i64)
    } else {
        match pow_i64_s(base, (exp - 1) as i64) {
            None => None,
            Some(x) => x.checked_mul(base),
        }
    }
}

proof fn lemma_pow_none_stays(base: i64, k: i64, e: i64)
    requires
        0 <= k <= e,
        pow_i64_s(base, k) is None,
    ensures
        pow_i64_s(base, e) is None,
    decreases e,
{
    if e > k {
        lemma_pow_none_stays(base, k, (e - 1) as i64);
    }
}

proof fn lemma_pow_zero(e: i64)
    requires
        e >= 1,
    ensures
        pow_i64_s(0i64, e) == Some(0i64),
    decreases e,
{
    if e > 1 {
        lemma_pow_zero((e - 1) as i64);
    } else {
        reveal_with_fuel(pow_i64_s, 2);
    }
}

proof fn lemma_pow_one(e: i64)
    requires
        e >= 0,
    ensures
        pow_i64_s(1i64, e) == Some(1i64),
    decreases e,
{
    if e > 0 {
        lemma_pow_one((e - 1) as i64);
    }
}

proof fn lemma_pow_neg_one(e: i64)
    requires
        e >= 0,
    ensures
        pow_i64_s(-1i64, e) == Some(if e % 2 == 0 { 1i64 } else { -1i64 }),
    decreases e,
{
    if e > 0 {
        lemma_pow_neg_one((e - 1) as i64);
    }
}

/// Executable twin of [`pow_i64_s`].
fn pow_i64(base: i64, exp: i64) -> (r: Option<i64>)
    ensures
        r == pow_i64_s(base, exp),
{
    if exp < 0 {
        return None;
    }
    if exp == 0 {
        return Some(1);
    }
    if base == 0 {
        proof {
            lemma_pow_zero(exp);
        }
        return Some(0);
    }
    if base == 1 {
        proof {
            lemma_pow_one(exp);
        }
        return Some(1);
    }
    if base == -1 {
        proof {
            lemma_pow_neg_one(exp);
        }
        return Some(if exp % 2 == 0 { 1 } else { -1 });
    }
    let mut acc: i64 = 1;
    let mut i: i64 = 0;
    while i < exp
        invariant
            0 <= i <= exp,
            pow_i64_s(base, i) == Some(acc),
        decreases exp - i,
    {
        match acc.checked_mul(base) {
            Some(next) => {
                acc = next;
                i = i + 1;
            },
            None => {
                proof {
                    assert(pow_i64_s(base, (i + 1) as i64) is None);
                    lemma_pow_none_stays(base, (i + 1) as i64, exp);
                }
                return None;
            },
        }
    }
    Some(acc)
}

/// Semantics of the non-null entry point of a binary built-in: both operands
/// are known to be non-null, and the result is a single value or a fatal
/// type-mismatch error.  Not used for coalesce / or / and, which are
/// null-aware.
pub open spec fn bin_nonnull_s(op: BinOp, a: ValS, b: ValS) -> Result<ValS, ErrS> {
    match op {
        BinOp::Add => match (a, b) {
            (ValS::Int(x), ValS::Int(y)) => match x.checked_add(y) {
                Some(z) => Ok(ValS::Int(z)),
                None => Err(mism2_s(op, a, b)),
            },
            _ => Err(mism2_s(op, a, b)),
        },
        BinOp::Sub => match (a, b) {
            (ValS::Int(x), ValS::Int(y)) => match x.checked_sub(y) {
                Some(z) => Ok(ValS::Int(z)),
                None => Err(mism2_s(op, a, b)),
            },
            _ => Err(mism2_s(op, a, b)),
        },
        BinOp::Mul => match (a, b) {
            (ValS::Int(x), ValS::Int(y)) => match x.checked_mul(y) {
                Some(z) => Ok(ValS::Int(z)),
                None => Err(mism2_s(op, a, b)),
            },
            _ => Err(mism2_s(op, a, b)),
        },
        BinOp::Div => match (a, b) {
            (ValS::Int(x), ValS::Int(y)) => match x.checked_div(y) {
                Some(z) => Ok(ValS::Int(z)),
                None => Err(mism2_s(op, a, b)),
            },
            _ => Err(mism2_s(op, a, b)),
        },
        BinOp::Mod => match (a, b) {
            (ValS::Int(x), ValS::Int(y)) => match x.checked_rem(y) {
                Some(z) => Ok(ValS::Int(z)),
                None => Err(mism2_s(op, a, b)),
            },
            _ => Err(mism2_s(op, a, b)),
        },
        BinOp::Pow => match (a, b) {
            (ValS::Int(x), ValS::Int(y)) => match pow_i64_s(x, y) {
                Some(z) => Ok(ValS::Int(z)),
                None => Err(mism2_s(op, a, b)),
            },
            _ => Err(mism2_s(op, a, b)),
        },
        BinOp::StrCat => match (a, b) {
            (ValS::Str(x), ValS::Str(y)) => Ok(ValS::Str(x + y)),
            _ => Err(mism2_s(op, a, b)),
        },
        BinOp::Eq => match (a, b) {
            (ValS::Bool(x), ValS::Bool(y)) => Ok(ValS::Bool(x == y)),
            (ValS::Int(x), ValS::Int(y)) => Ok(ValS::Bool(x == y)),
            (ValS::Str(x), ValS::Str(y)) => Ok(ValS::Bool(x == y)),
            _ => Err(mism2_s(op, a, b)),
        },
        BinOp::Ne => match (a, b) {
            (ValS::Bool(x), ValS::Bool(y)) => Ok(ValS::Bool(x != y)),
            (ValS::Int(x), ValS::Int(y)) => Ok(ValS::Bool(x != y)),
            (ValS::Str(x), ValS::Str(y)) => Ok(ValS::Bool(x != y)),
            _ => Err(mism2_s(op, a, b)),
        },
        BinOp::Gt => match (a, b) {
            (ValS::Int(x), ValS::Int(y)) => Ok(ValS::Bool(x > y)),
            (ValS::Str(x), ValS::Str(y)) => Ok(ValS::Bool(str_lt(y, x))),
            _ => Err(mism2_s(op, a, b)),
        },
        BinOp::Ge => match (a, b) {
            (ValS::Int(x), ValS::Int(y)) => Ok(ValS::Bool(x >= y)),
            (ValS::Str(x), ValS::Str(y)) => Ok(ValS::Bool(!str_lt(x, y))),
            _ => Err(mism2_s(op, a, b)),
        },
        BinOp::Lt => match (a, b) {
            (ValS::Int(x), ValS::Int(y)) => Ok(ValS::Bool(x < y)),
            (ValS::Str(x), ValS::Str(y)) => Ok(ValS::Bool(str_lt(x, y))),
            _ => Err(mism2_s(op, a, b)),
        },
        BinOp::Le => match (a, b) {
            (ValS::Int(x), ValS::Int(y)) => Ok(ValS::Bool(x <= y)),
            (ValS::Str(x), ValS::Str(y)) => Ok(ValS::Bool(!str_lt(y, x))),
            _ => Err(mism2_s(op, a, b)),
        },
        _ => Err(mism2_s(op, a, b)),
    }
}

/// Semantics of the null-aware two-value entry point of coalesce / boolean
/// or / boolean and, the three-valued logic of this catalog:
/// - coalesce yields the first non-null side, else null;
/// - or is true if either side is true, else null if either side is null,
///   else false;
/// - and is false if either side is false, else null if either side is null,
///   else true.
/// Or and and demand boolean-or-null operands.
pub open spec fn bin_nullaware_s(op: BinOp, a: ValS, b: ValS) -> Result<ValS, ErrS> {
    match op {
        BinOp::Coalesce => if !(a is Null) {
            Ok(a)
        } else {
            Ok(b)
        },
        BinOp::Or => if !(a is Null || a is Bool) || !(b is Null || b is Bool) {
            Err(mism2_s(op, a, b))
        } else if a == ValS::Bool(true) || b == ValS::Bool(true) {
            Ok(ValS::Bool(true))
        } else if a is Null || b is Null {
            Ok(ValS::Null)
        } else {
            Ok(ValS::Bool(false))
        },
        BinOp::And => if !(a is Null || a is Bool) || !(b is Null || b is Bool) {
            Err(mism2_s(op, a, b))
        } else if a == ValS::Bool(false) || b == ValS::Bool(false) {
            Ok(ValS::Bool(false))
        } else if a is Null || b is Null {
            Ok(ValS::Null)
        } else {
            Ok(ValS::Bool(true))
        },
        _ => Err(mism2_s(op, a, b)),
    }
}

/// Semantics of the non-null entry point of a unary built-in.
pub open spec fn un_nonnull_s(op: UnOp, a: ValS) -> Result<ValS, ErrS> {
    match op {
        UnOp::Negate => match a {
            ValS::Bool(x) => Ok(ValS::Bool(!x)),
            _ => Err(mism1_s(op, a)),
        },
        UnOp::Minus => match a {
            ValS::Int(x) => if x == i64::MIN {
                Err(mism1_s(op, a))
            } else {
                Ok(ValS::Int((-(x as int)) as i64))
            },
            _ => Err(mism1_s(op, a)),
        },
        _ => Err(mism1_s(op, a)),
    }
}

/// Semantics of the single-value entry point of the is-null / not-null
/// tests, which see null operands directly and never fail.
pub open spec fn un_direct_s(op: UnOp, a: ValS) -> ValS {
    match op {
        UnOp::IsNull => ValS::Bool(a is Null),
        _ => ValS::Bool(!(a is Null)),
    }
}

/// Executable twin of [`bin_nonnull_s`].
pub fn bin_eval_non_null(op: BinOp, a: Value, b: Value) -> (r: Result<Value, EvalError>)
    ensures
        r matches Ok(v) ==> bin_nonnull_s(op, a@, b@) == Ok::<ValS, ErrS>(v@),
        r matches Err(e) ==> bin_nonnull_s(op, a@, b@) == Err::<ValS, ErrS>(e@),
{
    match op {
        BinOp::Add => match (a, b) {
            (Value::Int(x), Value::Int(y)) => match x.checked_add(y) {
                Some(z) => Ok(Value::Int(z)),
                None => Err(mismatch2(op, Value::Int(x), Value::Int(y))),
            },
            (a, b) => Err(mismatch2(op, a, b)),
        },
        BinOp::Sub => match (a, b) {
            (Value::Int(x), Value::Int(y)) => match x.checked_sub(y) {
                Some(z) => Ok(Value::Int(z)),
                None => Err(mismatch2(op, Value::Int(x), Value::Int(y))),
            },
            (a, b) => Err(mismatch2(op, a, b)),
        },
        BinOp::Mul => match (a, b) {
            (Value::Int(x), Value::Int(y)) => match x.checked_mul(y) {
                Some(z) => Ok(Value::Int(z)),
                None => Err(mismatch2(op, Value::Int(x), Value::Int(y))),
            },
            (a, b) => Err(mismatch2(op, a, b)),
        },
        BinOp::Div => match (a, b) {
            (Value::Int(x), Value::Int(y)) => match x.checked_div(y) {
                Some(z) => Ok(Value::Int(z)),
                None => Err(mismatch2(op, Value::Int(x), Value::Int(y))),
            },
            (a, b) => Err(mismatch2(op, a, b)),
        },
        BinOp::Mod => match (a, b) {
            (Value::Int(x), Value::Int(y)) => match x.checked_rem(y) {
                Some(z) => Ok(Value::Int(z)),
                None => Err(mismatch2(op, Value::Int(x), Value::Int(y))),
            },
            (a, b) => Err(mismatch2(op, a, b)),
        },
        BinOp::Pow => match (a, b) {
            (Value::Int(x), Value::Int(y)) => match pow_i64(x, y) {
                Some(z) => Ok(Value::Int(z)),
                None => Err(mismatch2(op, Value::Int(x), Value::Int(y))),
            },
            (a, b) => Err(mismatch2(op, a, b)),
        },
        BinOp::StrCat => match (a, b) {
            (Value::Str(x), Value::Str(y)) => Ok(Value::Str(x.concat(y.as_str()))),
            (a, b) => Err(mismatch2(op, a, b)),
        },
        BinOp::Eq => match (a, b) {
            (Value::Bool(x), Value::Bool(y)) => Ok(Value::Bool(x == y)),
            (Value::Int(x), Value::Int(y)) => Ok(Value::Bool(x == y)),
            (Value::Str(x), Value::Str(y)) => Ok(Value::Bool(x == y)),
            (a, b) => Err(mismatch2(op, a, b)),
        },
        BinOp::Ne => match (a, b) {
            (Value::Bool(x), Value::Bool(y)) => Ok(Value::Bool(x != y)),
            (Value::Int(x), Value::Int(y)) => Ok(Value::Bool(x != y)),
            (Value::Str(x), Value::Str(y)) => Ok(Value::Bool(x != y)),
            (a, b) => Err(mismatch2(op, a, b)),
        },
        BinOp::Gt => match (a, b) {
            (Value::Int(x), Value::Int(y)) => Ok(Value::Bool(x > y)),
            (Value::Str(x), Value::Str(y)) => Ok(Value::Bool(str_lt_exec(&y, &x))),
            (a, b) => Err(mismatch2(op, a, b)),
        },
        BinOp::Ge => match (a, b) {
            (Value::Int(x), Value::Int(y)) => Ok(Value::Bool(x >= y)),
            (Value::Str(x), Value::Str(y)) => Ok(Value::Bool(!str_lt_exec(&x, &y))),
            (a, b) => Err(mismatch2(op, a, b)),
        },
        BinOp::Lt => match (a, b) {
            (Value::Int(x), Value::Int(y)) => Ok(Value::Bool(x < y)),
            (Value::Str(x), Value::Str(y)) => Ok(Value::Bool(str_lt_exec(&x, &y))),
            (a, b) => Err(mismatch2(op, a, b)),
        },
        BinOp::Le => match (a, b) {
            (Value::Int(x), Value::Int(y)) => Ok(Value::Bool(x <= y)),
            (Value::Str(x), Value::Str(y)) => Ok(Value::Bool(!str_lt_exec(&y, &x))),
            (a, b) => Err(mismatch2(op, a, b)),
        },
        _ => Err(mismatch2(op, a, b)),
    }
}

/// Executable twin of [`bin_nullaware_s`].
pub fn bin_eval_null_aware(op: BinOp, a: Value, b: Value) -> (r: Result<Value, EvalError>)
    ensures
        r matches Ok(v) ==> bin_nullaware_s(op, a@, b@) == Ok::<ValS, ErrS>(v@),
        r matches Err(e) ==> bin_nullaware_s(op, a@, b@) == Err::<ValS, ErrS>(e@),
{
    match op {
        BinOp::Coalesce => if !matches!(a, Value::Null) {
            Ok(a)
        } else {
            Ok(b)
        },
        BinOp::Or => {
            let a_ok = matches!(a, Value::Null | Value::Bool(_));
            let b_ok = matches!(b, Value::Null | Value::Bool(_));
            if !a_ok || !b_ok {
                Err(mismatch2(op, a, b))
            } else if matches!(a, Value::Bool(true)) || matches!(b, Value::Bool(true)) {
                Ok(Value::Bool(true))
            } else if matches!(a, Value::Null) || matches!(b, Value::Null) {
                Ok(Value::Null)
            } else {
                Ok(Value::Bool(false))
            }
        },
        BinOp::And => {
            let a_ok = matches!(a, Value::Null | Value::Bool(_));
            let b_ok = matches!(b, Value::Null | Value::Bool(_));
            if !a_ok || !b_ok {
                Err(mismatch2(op, a, b))
            } else if matches!(a, Value::Bool(false)) || matches!(b, Value::Bool(false)) {
                Ok(Value::Bool(false))
            } else if matches!(a, Value::Null) || matches!(b, Value::Null) {
                Ok(Value::Null)
            } else {
                Ok(Value::Bool(true))
            }
        },
        _ => Err(mismatch2(op, a, b)),
    }
}

/// Executable twin of [`un_nonnull_s`].
pub fn un_eval_non_null(op: UnOp, a: Value) -> (r: Result<Value, EvalError>)
    ensures
        r matches Ok(v) ==> un_nonnull_s(op, a@) == Ok::<ValS, ErrS>(v@),
        r matches Err(e) ==> un_nonnull_s(op, a@) == Err::<ValS, ErrS>(e@),
{
    match op {
        UnOp::Negate => match a {
            Value::Bool(x) => Ok(Value::Bool(!x)),
            a => Err(mismatch1(op, a)),
        },
        UnOp::Minus => match a {
            Value::Int(x) => if x == i64::MIN {
                Err(mismatch1(op, Value::Int(x)))
            } else {
                Ok(Value::Int(-x))
            },
            a => Err(mismatch1(op, a)),
        },
        _ => Err(mismatch1(op, a)),
    }
}

/// Executable twin of [`un_direct_s`].
pub fn un_eval_direct(op: UnOp, a: Value) -> (r: Value)
    ensures
        r@ == un_direct_s(op, a@),
{
    let is_null = matches!(a, Value::Null);
    match op {
        UnOp::IsNull => Value::Bool(is_null),
        _ => Value::Bool(!is_null),
    }
}

} // verus!
