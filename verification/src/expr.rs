//! Assembler expressions: parsing from tokens and exact evaluation.
//!
//! Values are 32-bit, unsigned or signed; the two kinds never mix inside
//! one operator.  Additions, subtractions and multiplications wrap modulo
//! 2^32; division and remainder by zero are reported as errors.  The
//! evaluator is proved equal to the spec function [`seval`].

use vstd::prelude::*;

use vstd::string::StringExecFns;

use crate::alu::bits_to_i32;
use crate::alu::from_i32;
use crate::alu::i32_to_bits;
use crate::alu::to_i32;
use crate::alu::tdiv;
use crate::alu::trem;
use crate::alu::sdiv_checked;
use crate::alu::srem_checked;
use crate::alu::sub_borrow;
use crate::alu::add_carry;
use crate::alu::wmul;
use crate::alu::wrap_mul;
use crate::assembler::Error;
use crate::lexer::Token;
use crate::lexer::TokenV;

verus! {

/// A constant of the expression language.
#[derive(Clone, Copy, Debug, PartialEq, Eq, Structural)]
pub enum Value {
    UnsignedInteger(u32),
    SignedInteger(i32),
}

/// A binary operator.
#[derive(Clone, Copy, Debug, PartialEq, Eq, Structural)]
pub enum Op {
    Add,
    Sub,
    Mul,
    Div,
    Mod,
    And,
    Or,
    Xor,
}

/// A unary operator.
#[derive(Clone, Copy, Debug, PartialEq, Eq, Structural)]
pub enum UnaryOp {
    Neg,
    Not,
}

/// The intrinsic functions of the expression language.
#[derive(Clone, Copy, Debug, PartialEq, Eq, Structural)]
pub enum Intrinsic {
    Min,
    Max,
    DivCeil,
    Align,
}

/// An expression tree.  Call arguments are a cons list so the tree is a
/// plain recursive datatype.
pub enum Expression {
    Variable(String),
    Value(Value),
    UnaryOp(UnaryOp, Box<Expression>),
    BinOp(Op, Box<Expression>, Box<Expression>),
    FnCall(String, ExprList),
}

/// A list of expressions.
pub enum ExprList {
    Nil,
    Cons(Box<Expression>, Box<ExprList>),
}

/// The mathematical shadow of an [`Expression`]: names become character
/// sequences and argument lists become sequences.
pub enum ExpressionV {
    Variable(Seq<char>),
    Value(Value),
    UnaryOp(UnaryOp, Box<ExpressionV>),
    BinOp(Op, Box<ExpressionV>, Box<ExpressionV>),
    FnCall(Seq<char>, Seq<ExpressionV>),
}

/// The shadow of an expression.
pub open spec fn expr_view(e: Expression) -> ExpressionV
    decreases e,
{
    match e {
        Expression::Variable(name) => ExpressionV::Variable(name@),
        Expression::Value(v) => ExpressionV::Value(v),
        Expression::UnaryOp(op, inner) => ExpressionV::UnaryOp(op, Box::new(expr_view(*inner))),
        Expression::BinOp(op, a, b) => ExpressionV::BinOp(
            op,
            Box::new(expr_view(*a)),
            Box::new(expr_view(*b)),
        ),
        Expression::FnCall(name, args) => ExpressionV::FnCall(name@, elist_view(args)),
    }
}

/// The shadow of an argument list.
pub open spec fn elist_view(l: ExprList) -> Seq<ExpressionV>
    decreases l,
{
    match l {
        ExprList::Nil => Seq::empty(),
        ExprList::Cons(head, tail) => seq![expr_view(*head)] + elist_view(*tail),
    }
}

/// The variable environment: later bindings shadow earlier ones.
pub type Env = Vec<(String, Value)>;

/// Looks a name up in the environment, newest binding first.
pub open spec fn slookup(env: Seq<(Seq<char>, Value)>, name: Seq<char>) -> Option<Value>
    decreases env.len(),
{
    if env.len() == 0 {
        None
    } else if env.last().0 == name {
        Some(env.last().1)
    } else {
        slookup(env.drop_last(), name)
    }
}

/// The view of an environment.
pub open spec fn env_view(env: Seq<(String, Value)>) -> Seq<(Seq<char>, Value)> {
    env.map_values(|p: (String, Value)| (p.0@, p.1))
}

/// The intrinsic a function name denotes.
pub open spec fn spec_intrinsic_of(name: Seq<char>) -> Option<Intrinsic> {
    if name == "min"@ {
        Some(Intrinsic::Min)
    } else if name == "max"@ {
        Some(Intrinsic::Max)
    } else if name == "div_ceil"@ {
        Some(Intrinsic::DivCeil)
    } else if name == "align"@ {
        Some(Intrinsic::Align)
    } else {
        None
    }
}

/// The value of a unary operator: negation is refused on unsigned values
/// and bitwise-not on nothing; signed negation wraps on the one extreme
/// value.
pub open spec fn sunary(op: UnaryOp, v: Value) -> Option<Value> {
    match v {
        Value::UnsignedInteger(u) => match op {
            UnaryOp::Neg => None,
            UnaryOp::Not => Some(Value::UnsignedInteger(!u)),
        },
        Value::SignedInteger(i) => match op {
            UnaryOp::Neg => Some(
                Value::SignedInteger(
                    if i == i32::MIN {
                        i32::MIN
                    } else {
                        (-i) as i32
                    },
                ),
            ),
            UnaryOp::Not => Some(Value::SignedInteger(!i)),
        },
    }
}

/// The value of a binary operator on two unsigned words: the ring
/// operators wrap, the divisions refuse a zero divisor.
pub open spec fn sbin_u(op: Op, a: u32, b: u32) -> Option<u32> {
    match op {
        Op::Add => Some((((a + b) % 0x1_0000_0000) as u32)),
        Op::Sub => Some((((a - b) % 0x1_0000_0000) as u32)),
        Op::Mul => Some(wrap_mul(a, b)),
        Op::Div => if b == 0 {
            None
        } else {
            Some(((a as int / b as int) as u32))
        },
        Op::Mod => if b == 0 {
            None
        } else {
            Some(((a as int % b as int) as u32))
        },
        Op::And => Some(a & b),
        Op::Or => Some(a | b),
        Op::Xor => Some(a ^ b),
    }
}

/// The value of a binary operator on two signed words, as bit patterns:
/// the ring operators wrap, the divisions truncate toward zero and refuse
/// a zero divisor or the one overflowing quotient.
pub open spec fn sbin_i(op: Op, a: u32, b: u32) -> Option<u32> {
    match op {
        Op::Add => Some((((a + b) % 0x1_0000_0000) as u32)),
        Op::Sub => Some((((a - b) % 0x1_0000_0000) as u32)),
        Op::Mul => Some(wrap_mul(a, b)),
        Op::Div => if b == 0 || (a == 0x8000_0000 && b == 0xFFFF_FFFF) {
            None
        } else {
            Some(from_i32(tdiv(to_i32(a) as int, to_i32(b) as int) as i32))
        },
        Op::Mod => if b == 0 || (a == 0x8000_0000 && b == 0xFFFF_FFFF) {
            None
        } else {
            Some(from_i32(trem(to_i32(a) as int, to_i32(b) as int) as i32))
        },
        Op::And => Some(a & b),
        Op::Or => Some(a | b),
        Op::Xor => Some(a ^ b),
    }
}

/// The value of a binary operator; the operand kinds must agree.
pub open spec fn sbin(op: Op, a: Value, b: Value) -> Option<Value> {
    match (a, b) {
        (Value::UnsignedInteger(x), Value::UnsignedInteger(y)) => match sbin_u(op, x, y) {
            Some(r) => Some(Value::UnsignedInteger(r)),
            None => None,
        },
        (Value::SignedInteger(x), Value::SignedInteger(y)) => match sbin_i(
            op,
            from_i32(x),
            from_i32(y),
        ) {
            Some(r) => Some(Value::SignedInteger(to_i32(r))),
            None => None,
        },
        _ => None,
    }
}

/// The smaller (respectively larger) of two values of one kind.
pub open spec fn svalue_min_max(mx: bool, a: Value, b: Value) -> Option<Value> {
    match (a, b) {
        (Value::UnsignedInteger(x), Value::UnsignedInteger(y)) => Some(
            Value::UnsignedInteger(
                if (x < y) != mx {
                    x
                } else {
                    y
                },
            ),
        ),
        (Value::SignedInteger(x), Value::SignedInteger(y)) => Some(
            Value::SignedInteger(
                if (x < y) != mx {
                    x
                } else {
                    y
                },
            ),
        ),
        _ => None,
    }
}

/// Folds min or max over a non-empty argument list.
pub open spec fn sfold_min_max(mx: bool, acc: Value, args: Seq<Value>, i: int) -> Option<Value>
    decreases args.len() - i,
{
    if i < 0 || i >= args.len() {
        Some(acc)
    } else {
        match svalue_min_max(mx, acc, args[i]) {
            Some(v) => sfold_min_max(mx, v, args, i + 1),
            None => None,
        }
    }
}

/// The ceiling of `a / b`: the quotient rounded toward positive
/// infinity.
pub open spec fn sceil(a: int, b: int) -> int
    recommends
        b != 0,
{
    if b > 0 {
        -((-a) / b)
    } else {
        -(a / (-b))
    }
}

/// The ceiling division of two values of one integer kind; the divisor
/// must not be zero (nor produce the one overflowing signed quotient).
pub open spec fn sdiv_ceil(a: Value, b: Value) -> Option<Value> {
    match (a, b) {
        (Value::UnsignedInteger(x), Value::UnsignedInteger(y)) => if y == 0 {
            None
        } else {
            Some(Value::UnsignedInteger((((x + y - 1) as int / y as int) as u32)))
        },
        (Value::SignedInteger(x), Value::SignedInteger(y)) => if y == 0 || (x == i32::MIN && y
            == -1) {
            None
        } else {
            Some(Value::SignedInteger(sceil(x as int, y as int) as i32))
        },
        _ => None,
    }
}

/// An intrinsic applied to evaluated arguments.
pub open spec fn sapply(f: Intrinsic, args: Seq<Value>) -> Option<Value> {
    match f {
        Intrinsic::Min => if args.len() < 1 {
            None
        } else {
            sfold_min_max(false, args[0], args, 0)
        },
        Intrinsic::Max => if args.len() < 1 {
            None
        } else {
            sfold_min_max(true, args[0], args, 0)
        },
        Intrinsic::DivCeil => if args.len() != 2 {
            None
        } else {
            sdiv_ceil(args[0], args[1])
        },
        Intrinsic::Align => if args.len() != 2 {
            None
        } else {
            match (args[0], args[1]) {
                (Value::UnsignedInteger(x), Value::UnsignedInteger(y)) => if y == 0 {
                    None
                } else {
                    let q = (x + y - 1) as int / y as int;
                    if q * y > 0xFFFF_FFFF {
                        None
                    } else {
                        Some(Value::UnsignedInteger((q * y) as u32))
                    }
                },
                _ => None,
            }
        },
    }
}

/// Evaluates an expression under an environment; `None` is any of the
/// evaluation errors (an unknown name, mixed kinds, a zero divisor, a
/// misused operator, a bad intrinsic call).
pub open spec fn seval(e: Expression, env: Seq<(Seq<char>, Value)>) -> Option<Value>
    decreases e,
{
    match e {
        Expression::Variable(name) => slookup(env, name@),
        Expression::Value(v) => Some(v),
        Expression::UnaryOp(op, inner) => match seval(*inner, env) {
            Some(v) => sunary(op, v),
            None => None,
        },
        Expression::BinOp(op, a, b) => match (seval(*a, env), seval(*b, env)) {
            (Some(x), Some(y)) => sbin(op, x, y),
            _ => None,
        },
        Expression::FnCall(name, args) => match spec_intrinsic_of(name@) {
            Some(f) => match seval_list(args, env) {
                Some(vs) => sapply(f, vs),
                None => None,
            },
            None => None,
        },
    }
}

/// Evaluates an argument list in order.
pub open spec fn seval_list(args: ExprList, env: Seq<(Seq<char>, Value)>) -> Option<Seq<Value>>
    decreases args,
{
    match args {
        ExprList::Nil => Some(Seq::empty()),
        ExprList::Cons(head, tail) => match (seval(*head, env), seval_list(*tail, env)) {
            (Some(v), Some(vs)) => Some(seq![v] + vs),
            _ => None,
        },
    }
}

/// Looks a name up in the environment.
pub fn lookup(env: &Env, name: &String) -> (r: Option<Value>)
    ensures
        r == slookup(env_view(env@), name@),
{
    let mut i: usize = env.len();
    proof {
        assert(env_view(env@).subrange(0, env@.len() as int) =~= env_view(env@));
    }
    loop
        invariant
            i <= env@.len(),
            slookup(env_view(env@), name@) == slookup(
                env_view(env@).subrange(0, i as int),
                name@,
            ),
        decreases i,
    {
        if i == 0 {
            proof {
                assert(env_view(env@).subrange(0, 0) =~= Seq::<(Seq<char>, Value)>::empty());
            }
            return None;
        }
        i = i - 1;
        proof {
            let ev = env_view(env@);
            let pair = env@[i as int];
            assert(ev.subrange(0, i + 1).last() == (pair.0@, pair.1));
            assert(ev.subrange(0, i + 1).drop_last() =~= ev.subrange(0, i as int));
        }
        if env[i].0.eq(name) {
            return Some(env[i].1);
        }
    }
}

/// Evaluates a unary operator.
fn eval_unary(op: UnaryOp, v: Value, line: usize) -> (r: Result<Value, Error>)
    ensures
        match sunary(op, v) {
            Some(out) => r matches Ok(x) && x == out,
            None => r is Err,
        },
{
    match v {
        Value::UnsignedInteger(u) => match op {
            UnaryOp::Neg => Err(
                Error::at_line("unary negation cannot be used on an unsigned value", line),
            ),
            UnaryOp::Not => Ok(Value::UnsignedInteger(!u)),
        },
        Value::SignedInteger(i) => match op {
            UnaryOp::Neg => {
                if i == i32::MIN {
                    Ok(Value::SignedInteger(i32::MIN))
                } else {
                    Ok(Value::SignedInteger(-i))
                }
            },
            UnaryOp::Not => Ok(Value::SignedInteger(!i)),
        },
    }
}

/// Evaluates a binary operator on matching kinds.
fn eval_bin(op: Op, a: Value, b: Value, line: usize) -> (r: Result<Value, Error>)
    ensures
        match sbin(op, a, b) {
            Some(out) => r matches Ok(x) && x == out,
            None => r is Err,
        },
{
    match (a, b) {
        (Value::UnsignedInteger(x), Value::UnsignedInteger(y)) => {
            let out: u32;
            match op {
                Op::Add => {
                    let (s, _) = add_carry(x, y, false);
                    out = s;
                },
                Op::Sub => {
                    let (d, _) = sub_borrow(x, y, false);
                    out = d;
                },
                Op::Mul => {
                    out = wmul(x, y);
                },
                Op::Div => {
                    if y == 0 {
                        return Err(Error::at_line("division by zero in expression", line));
                    }
                    out = x / y;
                },
                Op::Mod => {
                    if y == 0 {
                        return Err(Error::at_line("division by zero in expression", line));
                    }
                    out = x % y;
                },
                Op::And => {
                    out = x & y;
                },
                Op::Or => {
                    out = x | y;
                },
                Op::Xor => {
                    out = x ^ y;
                },
            }
            Ok(Value::UnsignedInteger(out))
        },
        (Value::SignedInteger(sx), Value::SignedInteger(sy)) => {
            let x = i32_to_bits(sx);
            let y = i32_to_bits(sy);
            let out: u32;
            match op {
                Op::Add => {
                    let (s, _) = add_carry(x, y, false);
                    out = s;
                },
                Op::Sub => {
                    let (d, _) = sub_borrow(x, y, false);
                    out = d;
                },
                Op::Mul => {
                    out = wmul(x, y);
                },
                Op::Div => {
                    match sdiv_checked(x, y) {
                        Some(q) => {
                            out = q;
                        },
                        None => {
                            return Err(Error::at_line("division by zero in expression", line));
                        },
                    }
                },
                Op::Mod => {
                    match srem_checked(x, y) {
                        Some(m) => {
                            out = m;
                        },
                        None => {
                            return Err(Error::at_line("division by zero in expression", line));
                        },
                    }
                },
                Op::And => {
                    out = x & y;
                },
                Op::Or => {
                    out = x | y;
                },
                Op::Xor => {
                    out = x ^ y;
                },
            }
            proof {
                crate::exec::lemma_from_to_i32(out);
                lemma_signed_bits_ops(sx, sy, x, y);
            }
            Ok(Value::SignedInteger(bits_to_i32(out)))
        },
        _ => Err(Error::at_line("operand kinds do not match in expression", line)),
    }
}

/// The bit patterns of signed operands satisfy the conversions used by
/// the signed binary operators.
proof fn lemma_signed_bits_ops(sx: i32, sy: i32, x: u32, y: u32)
    requires
        x == from_i32(sx),
        y == from_i32(sy),
    ensures
        to_i32(x) == sx,
        to_i32(y) == sy,
{
}

/// The smaller or larger of two values of one kind.
fn min_max_value(mx: bool, a: Value, b: Value, line: usize) -> (r: Result<Value, Error>)
    ensures
        match svalue_min_max(mx, a, b) {
            Some(out) => r matches Ok(x) && x == out,
            None => r is Err,
        },
{
    match (a, b) {
        (Value::UnsignedInteger(x), Value::UnsignedInteger(y)) => {
            let lt = x < y;
            if lt != mx {
                Ok(Value::UnsignedInteger(x))
            } else {
                Ok(Value::UnsignedInteger(y))
            }
        },
        (Value::SignedInteger(x), Value::SignedInteger(y)) => {
            let lt = x < y;
            if lt != mx {
                Ok(Value::SignedInteger(x))
            } else {
                Ok(Value::SignedInteger(y))
            }
        },
        _ => Err(Error::at_line("operand kinds do not match in intrinsic call", line)),
    }
}

/// Folds the smaller-or-larger choice over a non-empty argument list.
fn fold_min_max(mx: bool, args: &Vec<Value>, line: usize) -> (r: Result<Value, Error>)
    requires
        args@.len() >= 1,
    ensures
        match sfold_min_max(mx, args@[0], args@, 0) {
            Some(v) => r matches Ok(x) && x == v,
            None => r is Err,
        },
{
    let mut acc = args[0];
    let mut i: usize = 0;
    while i < args.len()
        invariant
            i <= args@.len(),
            args@.len() >= 1,
            sfold_min_max(mx, args@[0], args@, 0) == sfold_min_max(mx, acc, args@, i as int),
        decreases args@.len() - i,
    {
        match min_max_value(mx, acc, args[i], line) {
            Ok(v) => {
                acc = v;
            },
            Err(e) => {
                proof {
                    assert(sfold_min_max(mx, acc, args@, i as int) is None);
                }
                return Err(e);
            },
        }
        i = i + 1;
    }
    Ok(acc)
}

/// Applies an intrinsic to its evaluated arguments.
fn apply_intrinsic(f: Intrinsic, args: &Vec<Value>, line: usize) -> (r: Result<Value, Error>)
    ensures
        match sapply(f, args@) {
            Some(out) => r matches Ok(x) && x == out,
            None => r is Err,
        },
{
    match f {
        Intrinsic::Min => {
            if args.len() == 0 {
                return Err(Error::at_line("expected at least one argument", line));
            }
            fold_min_max(false, args, line)
        },
        Intrinsic::Max => {
            if args.len() == 0 {
                return Err(Error::at_line("expected at least one argument", line));
            }
            fold_min_max(true, args, line)
        },
        Intrinsic::DivCeil => {
            if args.len() != 2 {
                return Err(Error::at_line("expected exactly two arguments", line));
            }
            match (args[0], args[1]) {
                (Value::UnsignedInteger(x), Value::UnsignedInteger(y)) => {
                    if y == 0 {
                        Err(Error::at_line("division by zero in intrinsic call", line))
                    } else {
                        proof {
                            lemma_div_ceil_word(x as int, y as int);
                        }
                        let n: u64 = (x as u64) + (y as u64) - 1;
                        Ok(Value::UnsignedInteger((n / (y as u64)) as u32))
                    }
                },
                (Value::SignedInteger(x), Value::SignedInteger(y)) => {
                    if y == 0 {
                        Err(Error::at_line("division by zero in intrinsic call", line))
                    } else if x == i32::MIN && y == -1 {
                        Err(Error::at_line("ceiling division out of range", line))
                    } else {
                        Ok(Value::SignedInteger(ceil_div_signed(x, y)))
                    }
                },
                _ => Err(Error::at_line("operand kinds do not match in intrinsic call", line)),
            }
        },
        Intrinsic::Align => {
            if args.len() != 2 {
                return Err(Error::at_line("expected exactly two arguments", line));
            }
            match (args[0], args[1]) {
                (Value::UnsignedInteger(x), Value::UnsignedInteger(y)) => {
                    if y == 0 {
                        return Err(Error::at_line("alignment to zero", line));
                    }
                    let n: u64 = (x as u64) + (y as u64) - 1;
                    let q: u64 = n / (y as u64);
                    proof {
                        lemma_align_bounds(x as int, y as int);
                    }
                    let p: u64 = q * (y as u64);
                    if p > 0xFFFF_FFFF {
                        Err(Error::at_line("aligned value does not fit a word", line))
                    } else {
                        Ok(Value::UnsignedInteger(p as u32))
                    }
                },
                _ => Err(Error::at_line("operand kinds do not match in intrinsic call", line)),
            }
        },
    }
}

/// Ceiling division on signed words, through the operand magnitudes:
/// when the signs agree the truncating quotient rounds up on any
/// remainder, and when they differ it is already the ceiling.
fn ceil_div_signed(x: i32, y: i32) -> (r: i32)
    requires
        y != 0,
        !(x == i32::MIN && y == -1),
    ensures
        r == sceil(x as int, y as int),
{
    let xb = i32_to_bits(x);
    let yb = i32_to_bits(y);
    let ma = crate::alu::bits_mag(xb);
    let mb = crate::alu::bits_mag(yb);
    let q = ma / mb;
    let m = ma % mb;
    proof {
        vstd::arithmetic::div_mod::lemma_fundamental_div_mod(ma as int, mb as int);
        vstd::arithmetic::div_mod::lemma_mod_bound(ma as int, mb as int);
        lemma_ceil_cases(x as int, y as int, ma as int, mb as int);
    }
    if (x >= 0) == (y >= 0) {
        proof {
            if mb == 1 {
                vstd::arithmetic::div_mod::lemma_fundamental_div_mod(ma as int, 1);
                vstd::arithmetic::div_mod::lemma_mod_bound(ma as int, 1);
            } else {
                vstd::arithmetic::div_mod::lemma_div_is_ordered_by_denominator(
                    ma as int,
                    2,
                    mb as int,
                );
                vstd::arithmetic::div_mod::lemma_fundamental_div_mod(ma as int, 2);
                vstd::arithmetic::div_mod::lemma_mod_bound(ma as int, 2);
            }
        }
        if m != 0 {
            (q + 1) as i32
        } else {
            q as i32
        }
    } else {
        (-((q as i64)) as i32)
    }
}

/// Relates the magnitude quotient to the signed ceiling in all four sign
/// cases.
proof fn lemma_ceil_cases(ia: int, ib: int, ma: int, mb: int)
    requires
        ib != 0,
        ma == if ia >= 0 {
            ia
        } else {
            -ia
        },
        mb == if ib >= 0 {
            ib
        } else {
            -ib
        },
    ensures
        sceil(ia, ib) == if (ia >= 0) == (ib >= 0) {
            ma / mb + (if ma % mb != 0 {
                1int
            } else {
                0int
            })
        } else {
            -(ma / mb)
        },
{
    vstd::arithmetic::div_mod::lemma_fundamental_div_mod(ma, mb);
    vstd::arithmetic::div_mod::lemma_mod_bound(ma, mb);
    let q = ma / mb;
    let m = ma % mb;
    assert(q * mb == mb * q && (-q) * mb == -(mb * q) && (-q - 1) * mb == -(mb * q)
        - mb) by (nonlinear_arith);
    if ia >= 0 && ib > 0 {
        // sceil = -((-ia) / ib): the negated dividend's floor sits one
        // below the quotient whenever there is a remainder.
        if m == 0 {
            vstd::arithmetic::div_mod::lemma_fundamental_div_mod_converse(-ma, mb, -q, 0);
        } else {
            vstd::arithmetic::div_mod::lemma_fundamental_div_mod_converse(
                -ma,
                mb,
                -q - 1,
                mb - m,
            );
        }
    } else if ia < 0 && ib > 0 {
        vstd::arithmetic::div_mod::lemma_fundamental_div_mod_converse(ma, mb, q, m);
    } else if ia >= 0 {
        vstd::arithmetic::div_mod::lemma_fundamental_div_mod_converse(ma, mb, q, m);
    } else {
        if m == 0 {
            vstd::arithmetic::div_mod::lemma_fundamental_div_mod_converse(-ma, mb, -q, 0);
        } else {
            vstd::arithmetic::div_mod::lemma_fundamental_div_mod_converse(
                -ma,
                mb,
                -q - 1,
                mb - m,
            );
        }
    }
}

/// The ceiling quotient of word-sized operands fits a word.
proof fn lemma_div_ceil_word(x: int, y: int)
    requires
        0 <= x <= 0xFFFF_FFFF,
        1 <= y <= 0xFFFF_FFFF,
    ensures
        0 <= (x + y - 1) / y <= 0xFFFF_FFFF,
{
    vstd::arithmetic::div_mod::lemma_div_pos_is_pos(x + y - 1, y);
    vstd::arithmetic::div_mod::lemma_fundamental_div_mod(x + y - 1, y);
    vstd::arithmetic::div_mod::lemma_mod_bound(x + y - 1, y);
    let q = (x + y - 1) / y;
    if y >= 2 {
        assert(2 * q <= q * y) by (nonlinear_arith)
            requires
                q >= 0,
                y >= 2,
        {
        }
    }
}

/// The aligned product `div_ceil(x, y) * y` never exceeds the square of
/// the word bound.
proof fn lemma_align_bounds(x: int, y: int)
    requires
        0 <= x <= 0xFFFF_FFFF,
        1 <= y <= 0xFFFF_FFFF,
    ensures
        0 <= (x + y - 1) / y,
        ((x + y - 1) / y) * y <= 0x1_FFFF_FFFE,
        ((x + y - 1) / y) * y < 0x7FFF_FFFF_FFFF_FFFF,
{
    vstd::arithmetic::div_mod::lemma_div_pos_is_pos(x + y - 1, y);
    vstd::arithmetic::div_mod::lemma_fundamental_div_mod(x + y - 1, y);
    vstd::arithmetic::div_mod::lemma_mod_bound(x + y - 1, y);
}

/// Evaluates an expression under an environment; see [`seval`].
pub fn eval(e: &Expression, env: &Env, line: usize) -> (r: Result<Value, Error>)
    ensures
        match seval(*e, env_view(env@)) {
            Some(out) => r matches Ok(x) && x == out,
            None => r is Err,
        },
    decreases *e,
{
    match e {
        Expression::Variable(name) => match lookup(env, name) {
            Some(v) => Ok(v),
            None => Err(Error::at_line("unrecognized variable", line)),
        },
        Expression::Value(v) => Ok(*v),
        Expression::UnaryOp(op, inner) => {
            let v = eval(inner, env, line)?;
            eval_unary(*op, v, line)
        },
        Expression::BinOp(op, a, b) => {
            let x = eval(a, env, line)?;
            let y = eval(b, env, line)?;
            eval_bin(*op, x, y, line)
        },
        Expression::FnCall(name, args) => {
            let f = match intrinsic_of(name) {
                Some(f) => f,
                None => {
                    return Err(Error::at_line("unrecognized function", line));
                },
            };
            let vs = eval_list(args, env, line)?;
            apply_intrinsic(f, &vs, line)
        },
    }
}

/// Evaluates an argument list in order.
fn eval_list(args: &ExprList, env: &Env, line: usize) -> (r: Result<Vec<Value>, Error>)
    ensures
        match seval_list(*args, env_view(env@)) {
            Some(vs) => r matches Ok(v) && v@ == vs,
            None => r is Err,
        },
    decreases *args,
{
    match args {
        ExprList::Nil => {
            let empty: Vec<Value> = Vec::new();
            proof {
                assert(empty@ =~= Seq::<Value>::empty());
            }
            Ok(empty)
        },
        ExprList::Cons(head, tail) => {
            let v = eval(head, env, line)?;
            let mut rest = eval_list(tail, env, line)?;
            let ghost prev = rest@;
            rest.insert(0, v);
            proof {
                assert(rest@ =~= seq![v] + prev);
            }
            Ok(rest)
        },
    }
}

/// The intrinsic a function name denotes.
pub fn intrinsic_of(name: &String) -> (r: Option<Intrinsic>)
    ensures
        r == spec_intrinsic_of(name@),
{
    if name.eq(&String::from_str("min")) {
        Some(Intrinsic::Min)
    } else if name.eq(&String::from_str("max")) {
        Some(Intrinsic::Max)
    } else if name.eq(&String::from_str("div_ceil")) {
        Some(Intrinsic::DivCeil)
    } else if name.eq(&String::from_str("align")) {
        Some(Intrinsic::Align)
    } else {
        None
    }
}

/// The binary operator a control character denotes.
pub fn op_from_char(c: char) -> (r: Option<Op>)
    ensures
        r == spec_op_from_char(c),
{
    if c == '+' {
        Some(Op::Add)
    } else if c == '*' {
        Some(Op::Mul)
    } else if c == '-' {
        Some(Op::Sub)
    } else if c == '/' {
        Some(Op::Div)
    } else if c == '&' {
        Some(Op::And)
    } else if c == '|' {
        Some(Op::Or)
    } else if c == '^' {
        Some(Op::Xor)
    } else if c == '%' {
        Some(Op::Mod)
    } else {
        None
    }
}

/// The binary operator a control character denotes.
pub open spec fn spec_op_from_char(c: char) -> Option<Op> {
    if c == '+' {
        Some(Op::Add)
    } else if c == '*' {
        Some(Op::Mul)
    } else if c == '-' {
        Some(Op::Sub)
    } else if c == '/' {
        Some(Op::Div)
    } else if c == '&' {
        Some(Op::And)
    } else if c == '|' {
        Some(Op::Or)
    } else if c == '^' {
        Some(Op::Xor)
    } else if c == '%' {
        Some(Op::Mod)
    } else {
        None
    }
}

/// An operand or operator of a parenthesized chain, before grouping.
pub enum ElemV {
    Operand(ExpressionV),
    Operator(Op),
}

/// Whether the operator belongs to the tight group (`& | ^`) or the
/// middle group (`* / %`).
pub open spec fn sin_group(op: Op, tight: bool) -> bool {
    if tight {
        op == Op::And || op == Op::Or || op == Op::Xor
    } else {
        op == Op::Mul || op == Op::Div || op == Op::Mod
    }
}

/// One grouping pass over a chain: every operator of the selected class
/// is joined with its neighbours, left to right; `None` when an operand
/// is missing beside an operator.
pub open spec fn spec_combine_group(out: Seq<ElemV>, rest: Seq<ElemV>, tight: bool) -> Option<
    Seq<ElemV>,
>
    decreases rest.len(),
{
    if rest.len() == 0 {
        Some(out)
    } else {
        match rest.first() {
            ElemV::Operator(op) => if sin_group(op, tight) {
                if out.len() == 0 {
                    None
                } else {
                    match out.last() {
                        ElemV::Operand(lhs) => if rest.len() < 2 {
                            None
                        } else {
                            match rest[1] {
                                ElemV::Operand(rhs) => spec_combine_group(
                                    out.drop_last().push(
                                        ElemV::Operand(
                                            ExpressionV::BinOp(op, Box::new(lhs), Box::new(rhs)),
                                        ),
                                    ),
                                    rest.subrange(2, rest.len() as int),
                                    tight,
                                ),
                                _ => None,
                            }
                        },
                        _ => None,
                    }
                }
            } else {
                spec_combine_group(out.push(rest.first()), rest.drop_first(), tight)
            },
            _ => spec_combine_group(out.push(rest.first()), rest.drop_first(), tight),
        }
    }
}

/// The final grouping pass: every remaining operator is joined, left to
/// right.
pub open spec fn spec_combine_all(out: Seq<ElemV>, rest: Seq<ElemV>) -> Option<Seq<ElemV>>
    decreases rest.len(),
{
    if rest.len() == 0 {
        Some(out)
    } else {
        match rest.first() {
            ElemV::Operator(op) => if out.len() == 0 {
                None
            } else {
                match out.last() {
                    ElemV::Operand(lhs) => if rest.len() < 2 {
                        None
                    } else {
                        match rest[1] {
                            ElemV::Operand(rhs) => spec_combine_all(
                                out.drop_last().push(
                                    ElemV::Operand(
                                        ExpressionV::BinOp(op, Box::new(lhs), Box::new(rhs)),
                                    ),
                                ),
                                rest.subrange(2, rest.len() as int),
                            ),
                            _ => None,
                        }
                    },
                    _ => None,
                }
            },
            _ => spec_combine_all(out.push(rest.first()), rest.drop_first()),
        }
    }
}

/// The expression tree a token range denotes, with the index one past
/// its last token; `None` is a parse error.  An identifier followed by a
/// parenthesis is a call, a bare identifier a variable, an integer a
/// constant, `~` and `-` the unary operators, and `(` opens an operator
/// chain.
///
/// The recursions through [`spec_paren_scan`] and [`spec_collect_args`]
/// clamp the returned index into `(position, length]`; the executable
/// parser is proved to make strict progress, so the clamps change no
/// reachable value — they only make the recursion visibly well-founded.
pub open spec fn spec_collect_expr(toks: Seq<TokenV>, start: int) -> Option<(ExpressionV, int)>
    decreases toks.len() - start, 0int,
{
    if start < 0 || start >= toks.len() {
        None
    } else {
        match toks[start] {
            TokenV::Ident(name) => if start + 1 < toks.len() && toks[start + 1]
                == TokenV::Control('(') {
                match spec_collect_args(toks, start + 2) {
                    Some(p) => Some((ExpressionV::FnCall(name, p.0), p.1)),
                    None => None,
                }
            } else {
                Some((ExpressionV::Variable(name), start + 1))
            },
            TokenV::UnsignedInteger(u, _) => Some(
                (ExpressionV::Value(Value::UnsignedInteger(u)), start + 1),
            ),
            TokenV::SignedInteger(v, _) => Some(
                (ExpressionV::Value(Value::SignedInteger(v)), start + 1),
            ),
            TokenV::Control(c) => if c == '~' {
                match spec_collect_expr(toks, start + 1) {
                    Some(p) => Some(
                        (ExpressionV::UnaryOp(UnaryOp::Not, Box::new(p.0)), p.1),
                    ),
                    None => None,
                }
            } else if c == '-' {
                match spec_collect_expr(toks, start + 1) {
                    Some(p) => Some(
                        (ExpressionV::UnaryOp(UnaryOp::Neg, Box::new(p.0)), p.1),
                    ),
                    None => None,
                }
            } else if c == '(' {
                spec_collect_paren(toks, start + 1)
            } else {
                None
            },
            TokenV::Ascii(_) => None,
        }
    }
}

/// Scans a parenthesized chain up to its closing parenthesis: operands
/// and operators in strict alternation, starting with an operand.
/// Yields the chain and the position of the closing parenthesis.
pub open spec fn spec_paren_scan(toks: Seq<TokenV>, i: int, expect_operand: bool) -> Option<
    (Seq<ElemV>, int),
>
    decreases toks.len() - i, 1int,
{
    if i < 0 || i >= toks.len() {
        None
    } else if toks[i] == TokenV::Control(')') {
        Some((Seq::empty(), i))
    } else if expect_operand {
        match spec_collect_expr(toks, i) {
            Some(p) => {
                let j = if p.1 <= i {
                    i + 1
                } else if p.1 > toks.len() {
                    toks.len() as int
                } else {
                    p.1
                };
                match spec_paren_scan(toks, j, false) {
                    Some(q) => Some((seq![ElemV::Operand(p.0)] + q.0, q.1)),
                    None => None,
                }
            },
            None => None,
        }
    } else {
        match toks[i] {
            TokenV::Control(c) => match spec_op_from_char(c) {
                Some(op) => match spec_paren_scan(toks, i + 1, true) {
                    Some(q) => Some((seq![ElemV::Operator(op)] + q.0, q.1)),
                    None => None,
                },
                None => None,
            },
            _ => None,
        }
    }
}

/// The expression a parenthesized chain denotes: the scanned chain,
/// grouped `& | ^` first, then `* / %`, then `+ -`, must reduce to one
/// operand; the index lands one past the closing parenthesis.  This
/// fixed order is the grammar's commitment — the one the machine's
/// existing programs were written against — and nested parentheses
/// always override it, since they parse as their own chains.
pub open spec fn spec_collect_paren(toks: Seq<TokenV>, start: int) -> Option<(ExpressionV, int)>
    decreases toks.len() - start, 2int,
{
    match spec_paren_scan(toks, start, true) {
        Some(p) => if p.0.len() % 2 == 0 {
            None
        } else {
            match spec_combine_group(Seq::empty(), p.0, true) {
                Some(e1) => match spec_combine_group(Seq::empty(), e1, false) {
                    Some(e2) => match spec_combine_all(Seq::empty(), e2) {
                        Some(e3) => if e3.len() != 1 {
                            None
                        } else {
                            match e3[0] {
                                ElemV::Operand(e) => Some((e, p.1 + 1)),
                                _ => None,
                            }
                        },
                        None => None,
                    },
                    None => None,
                },
                None => None,
            }
        },
        None => None,
    }
}

/// The comma-separated argument list a token range denotes, up to and
/// past the closing parenthesis.
pub open spec fn spec_collect_args(toks: Seq<TokenV>, start: int) -> Option<
    (Seq<ExpressionV>, int),
>
    decreases toks.len() - start, 1int,
{
    match spec_collect_expr(toks, start) {
        Some(p) => {
            let i = if p.1 <= start {
                start + 1
            } else if p.1 > toks.len() {
                toks.len() as int
            } else {
                p.1
            };
            if i >= toks.len() {
                None
            } else if toks[i] == TokenV::Control(')') {
                Some((seq![p.0], i + 1))
            } else if toks[i] == TokenV::Control(',') {
                match spec_collect_args(toks, i + 1) {
                    Some(q) => Some((seq![p.0] + q.0, q.1)),
                    None => None,
                }
            } else {
                None
            }
        },
        None => None,
    }
}

/// Parses one expression from `tokens` starting at `start`: the result
/// is exactly [`spec_collect_expr`] of the token views, and on success
/// the returned index lies strictly beyond `start` and at most at the
/// end of the token list, so parsing always makes progress.
pub fn collect_expr(tokens: &Vec<Token>, start: usize, line: usize) -> (r: Result<
    (Expression, usize),
    Error,
>)
    requires
        start <= tokens@.len(),
    ensures
        r matches Ok(p) ==> start < p.1 <= tokens@.len(),
        match spec_collect_expr(tokens.deep_view(), start as int) {
            Some(p) => r matches Ok(q) && expr_view(q.0) == p.0 && q.1 == p.1,
            None => r is Err,
        },
    decreases tokens@.len() - start, 0int,
{
    proof {
        assert(tokens.deep_view().len() == tokens@.len());
    }
    if start == tokens.len() {
        return Err(Error::at_line("expected an expression", line));
    }
    proof {
        assert(tokens.deep_view()[start as int] == tokens@[start as int]@);
    }
    match &tokens[start] {
        Token::Ident(name) => {
            if start + 1 < tokens.len() && is_control(&tokens[start + 1], '(') {
                proof {
                    assert(tokens.deep_view()[start + 1] == tokens@[start + 1]@);
                }
                let (args, end) = collect_args(tokens, start + 2, line)?;
                Ok((Expression::FnCall(name.clone(), args), end))
            } else {
                proof {
                    if start + 1 < tokens@.len() {
                        assert(tokens.deep_view()[start + 1] == tokens@[start + 1]@);
                    }
                }
                Ok((Expression::Variable(name.clone()), start + 1))
            }
        },
        Token::UnsignedInteger(u, _) => Ok(
            (Expression::Value(Value::UnsignedInteger(*u)), start + 1),
        ),
        Token::SignedInteger(i, _) => Ok((Expression::Value(Value::SignedInteger(*i)), start + 1)),
        Token::Control(c) => {
            if *c == '~' {
                let (inner, end) = collect_expr(tokens, start + 1, line)?;
                Ok((Expression::UnaryOp(UnaryOp::Not, Box::new(inner)), end))
            } else if *c == '-' {
                let (inner, end) = collect_expr(tokens, start + 1, line)?;
                Ok((Expression::UnaryOp(UnaryOp::Neg, Box::new(inner)), end))
            } else if *c == '(' {
                collect_paren(tokens, start + 1, line)
            } else if *c == '!' {
                Err(Error::at_line("invalid token `!` in expression; `~` is unary not", line))
            } else {
                Err(Error::at_line("invalid token as expression", line))
            }
        },
        Token::Ascii(_) => Err(Error::at_line("invalid token as expression", line)),
    }
}

/// Whether a token is the given control character.
fn is_control(t: &Token, c: char) -> (r: bool)
    ensures
        r == (t@ == TokenV::Control(c)),
{
    match t {
        Token::Control(x) => *x == c,
        _ => false,
    }
}

/// The views of a chain under construction.
spec fn elems_view(s: Seq<ExprElem>) -> Seq<ElemV> {
    s.map_values(|e: ExprElem| elem_view(e))
}

/// The view of one chain element.
spec fn elem_view(e: ExprElem) -> ElemV {
    match e {
        ExprElem::Operand(x) => ElemV::Operand(expr_view(x)),
        ExprElem::Operator(op) => ElemV::Operator(op),
    }
}

/// Parses a parenthesized operator chain, then groups it by the fixed
/// precedence: `& | ^` bind tightest, then `* / %`, then `+ -` — exactly
/// [`spec_collect_paren`].
#[verifier::loop_isolation(false)]
fn collect_paren(tokens: &Vec<Token>, start: usize, line: usize) -> (r: Result<
    (Expression, usize),
    Error,
>)
    requires
        start <= tokens@.len(),
    ensures
        r matches Ok(p) ==> start < p.1 <= tokens@.len(),
        match spec_collect_paren(tokens.deep_view(), start as int) {
            Some(p) => r matches Ok(q) && expr_view(q.0) == p.0 && q.1 == p.1,
            None => r is Err,
        },
    decreases tokens@.len() - start, 1int,
{
    let ghost td = tokens.deep_view();
    proof {
        assert(td.len() == tokens@.len());
    }
    let mut elems: Vec<ExprElem> = Vec::new();
    let mut index: usize = start;
    proof {
        assert(elems_view(elems@) =~= Seq::<ElemV>::empty());
    }
    loop
        invariant
            start <= index <= tokens@.len(),
            ({
                let tail = spec_paren_scan(td, index as int, elems@.len() % 2 == 0);
                match spec_paren_scan(td, start as int, true) {
                    Some(p) => tail matches Some(q) && p.0 == elems_view(elems@) + q.0 && p.1
                        == q.1,
                    None => tail is None,
                }
            }),
        decreases tokens@.len() - index,
    {
        proof {
            if index < tokens@.len() {
                assert(td[index as int] == tokens@[index as int]@);
            }
        }
        if index == tokens.len() {
            return Err(Error::at_line("expected another token in expression", line));
        }
        if is_control(&tokens[index], ')') {
            proof {
                assert(elems_view(elems@) + Seq::<ElemV>::empty() =~= elems_view(elems@));
            }
            if elems.len() % 2 == 0 {
                return Err(Error::at_line("expression is missing a right-hand operand", line));
            }
            let elems1 = combine_ops(elems, true, line)?;
            let elems2 = combine_ops(elems1, false, line)?;
            let mut elems3 = combine_adds(elems2, line)?;
            if elems3.len() != 1 {
                return Err(Error::at_line("malformed expression", line));
            }
            return match elems3.pop() {
                Some(ExprElem::Operand(e)) => {
                    proof {
                        assert(elems_view(elems3@.push(ExprElem::Operand(e)))[0] == ElemV::Operand(
                            expr_view(e),
                        ));
                    }
                    Ok((e, index + 1))
                },
                _ => Err(Error::at_line("malformed expression", line)),
            };
        }
        if elems.len() % 2 == 0 {
            let (e, i) = collect_expr(tokens, index, line)?;
            let ghost prev = elems_view(elems@);
            let ghost ev = expr_view(e);
            elems.push(ExprElem::Operand(e));
            index = i;
            proof {
                assert(elems_view(elems@) =~= prev.push(ElemV::Operand(ev)));
                if spec_paren_scan(td, index as int, false) is Some {
                    let q = spec_paren_scan(td, index as int, false).unwrap();
                    assert(prev + (seq![ElemV::Operand(ev)] + q.0) =~= prev.push(
                        ElemV::Operand(ev),
                    ) + q.0);
                }
            }
        } else {
            match &tokens[index] {
                Token::Control(c) => match op_from_char(*c) {
                    Some(op) => {
                        let ghost prev = elems_view(elems@);
                        elems.push(ExprElem::Operator(op));
                        proof {
                            assert(elems_view(elems@) =~= prev.push(ElemV::Operator(op)));
                            if spec_paren_scan(td, index + 1, true) is Some {
                                let q = spec_paren_scan(td, index + 1, true).unwrap();
                                assert(prev + (seq![ElemV::Operator(op)] + q.0) =~= prev.push(
                                    ElemV::Operator(op),
                                ) + q.0);
                            }
                        }
                    },
                    None => {
                        return Err(Error::at_line("invalid binary operator in expression", line));
                    },
                },
                _ => {
                    return Err(Error::at_line("expected an operator", line));
                },
            }
            index = index + 1;
        }
    }
}

/// An operand or operator of a parenthesized chain, before grouping.
enum ExprElem {
    Operand(Expression),
    Operator(Op),
}

/// Whether the operator belongs to the selected group; see
/// [`sin_group`].
fn in_group(op: Op, tight: bool) -> (r: bool)
    ensures
        r == sin_group(op, tight),
{
    if tight {
        matches!(op, Op::And | Op::Or | Op::Xor)
    } else {
        matches!(op, Op::Mul | Op::Div | Op::Mod)
    }
}

/// Groups every operator of the selected class with its neighbours;
/// exactly one pass of [`spec_combine_group`].
#[verifier::loop_isolation(false)]
fn combine_ops(elems: Vec<ExprElem>, tight: bool, line: usize) -> (r: Result<Vec<ExprElem>, Error>)
    ensures
        match spec_combine_group(Seq::empty(), elems_view(elems@), tight) {
            Some(es) => r matches Ok(v) && elems_view(v@) == es,
            None => r is Err,
        },
{
    let ghost elems0 = elems_view(elems@);
    let mut out: Vec<ExprElem> = Vec::new();
    let mut rest = elems;
    proof {
        assert(elems_view(out@) =~= Seq::<ElemV>::empty());
    }
    loop
        invariant
            spec_combine_group(Seq::empty(), elems0, tight) == spec_combine_group(
                elems_view(out@),
                elems_view(rest@),
                tight,
            ),
        decreases rest@.len(),
    {
        if rest.len() == 0 {
            break;
        }
        let ghost outv = elems_view(out@);
        let ghost restv = elems_view(rest@);
        let elem = rest.remove(0);
        proof {
            assert(elems_view(rest@) =~= restv.drop_first());
            assert(restv.first() == elem_view(elem));
        }
        match elem {
            ExprElem::Operator(op) => {
                if in_group(op, tight) {
                    let lhs = match out.pop() {
                        Some(ExprElem::Operand(e)) => e,
                        _ => {
                            return Err(Error::at_line("malformed expression", line));
                        },
                    };
                    if rest.len() == 0 {
                        return Err(Error::at_line("malformed expression", line));
                    }
                    let ghost restv1 = elems_view(rest@);
                    let rhs = match rest.remove(0) {
                        ExprElem::Operand(e) => e,
                        _ => {
                            return Err(Error::at_line("malformed expression", line));
                        },
                    };
                    proof {
                        assert(elems_view(rest@) =~= restv.subrange(2, restv.len() as int));
                        assert(restv[1] == restv1.first());
                    }
                    let ghost outv1 = elems_view(out@);
                    out.push(
                        ExprElem::Operand(Expression::BinOp(op, Box::new(lhs), Box::new(rhs))),
                    );
                    proof {
                        assert(outv1 =~= outv.drop_last());
                        assert(elems_view(out@) =~= outv1.push(
                            elem_view(out@[out@.len() - 1]),
                        ));
                    }
                } else {
                    out.push(ExprElem::Operator(op));
                    proof {
                        assert(elems_view(out@) =~= outv.push(ElemV::Operator(op)));
                    }
                }
            },
            other => {
                let ghost ov = elem_view(other);
                out.push(other);
                proof {
                    assert(elems_view(out@) =~= outv.push(ov));
                }
            },
        }
    }
    proof {
        assert(elems_view(rest@) =~= Seq::<ElemV>::empty());
    }
    Ok(out)
}

/// Groups the remaining additive operators left to right; exactly
/// [`spec_combine_all`].
#[verifier::loop_isolation(false)]
fn combine_adds(elems: Vec<ExprElem>, line: usize) -> (r: Result<Vec<ExprElem>, Error>)
    ensures
        match spec_combine_all(Seq::empty(), elems_view(elems@)) {
            Some(es) => r matches Ok(v) && elems_view(v@) == es,
            None => r is Err,
        },
{
    let ghost elems0 = elems_view(elems@);
    let mut out: Vec<ExprElem> = Vec::new();
    let mut rest = elems;
    proof {
        assert(elems_view(out@) =~= Seq::<ElemV>::empty());
    }
    loop
        invariant
            spec_combine_all(Seq::empty(), elems0) == spec_combine_all(
                elems_view(out@),
                elems_view(rest@),
            ),
        decreases rest@.len(),
    {
        if rest.len() == 0 {
            break;
        }
        let ghost outv = elems_view(out@);
        let ghost restv = elems_view(rest@);
        let elem = rest.remove(0);
        proof {
            assert(elems_view(rest@) =~= restv.drop_first());
            assert(restv.first() == elem_view(elem));
        }
        match elem {
            ExprElem::Operator(op) => {
                let lhs = match out.pop() {
                    Some(ExprElem::Operand(e)) => e,
                    _ => {
                        return Err(Error::at_line("malformed expression", line));
                    },
                };
                if rest.len() == 0 {
                    return Err(Error::at_line("malformed expression", line));
                }
                let ghost restv1 = elems_view(rest@);
                let rhs = match rest.remove(0) {
                    ExprElem::Operand(e) => e,
                    _ => {
                        return Err(Error::at_line("malformed expression", line));
                    },
                };
                proof {
                    assert(elems_view(rest@) =~= restv.subrange(2, restv.len() as int));
                    assert(restv[1] == restv1.first());
                }
                let ghost outv1 = elems_view(out@);
                out.push(ExprElem::Operand(Expression::BinOp(op, Box::new(lhs), Box::new(rhs))));
                proof {
                    assert(outv1 =~= outv.drop_last());
                    assert(elems_view(out@) =~= outv1.push(elem_view(out@[out@.len() - 1])));
                }
            },
            other => {
                let ghost ov = elem_view(other);
                out.push(other);
                proof {
                    assert(elems_view(out@) =~= outv.push(ov));
                }
            },
        }
    }
    proof {
        assert(elems_view(rest@) =~= Seq::<ElemV>::empty());
    }
    Ok(out)
}

/// Parses a parenthesized, comma-separated argument list whose opening
/// parenthesis has been consumed; exactly [`spec_collect_args`].
fn collect_args(tokens: &Vec<Token>, start: usize, line: usize) -> (r: Result<
    (ExprList, usize),
    Error,
>)
    requires
        start <= tokens@.len(),
    ensures
        r matches Ok(p) ==> start < p.1 <= tokens@.len(),
        match spec_collect_args(tokens.deep_view(), start as int) {
            Some(p) => r matches Ok(q) && elist_view(q.0) == p.0 && q.1 == p.1,
            None => r is Err,
        },
    decreases tokens@.len() - start, 1int,
{
    let ghost td = tokens.deep_view();
    proof {
        assert(td.len() == tokens@.len());
    }
    let (head, index) = collect_expr(tokens, start, line)?;
    if index == tokens.len() {
        return Err(Error::at_line("expected `,` or `)`", line));
    }
    proof {
        assert(td[index as int] == tokens@[index as int]@);
    }
    if is_control(&tokens[index], ')') {
        proof {
            assert(elist_view(ExprList::Nil) =~= Seq::<ExpressionV>::empty());
            assert(elist_view(
                ExprList::Cons(Box::new(head), Box::new(ExprList::Nil)),
            ) =~= seq![expr_view(head)]);
        }
        return Ok((ExprList::Cons(Box::new(head), Box::new(ExprList::Nil)), index + 1));
    }
    if is_control(&tokens[index], ',') {
        let (tail, end) = collect_args(tokens, index + 1, line)?;
        proof {
            assert(elist_view(ExprList::Cons(Box::new(head), Box::new(tail)))
                =~= seq![expr_view(head)] + elist_view(tail));
        }
        return Ok((ExprList::Cons(Box::new(head), Box::new(tail)), end));
    }
    Err(Error::at_line("expected `,` or `)`", line))
}

} // verus!
