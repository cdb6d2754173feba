use vstd::arithmetic::div_mod::{
    lemma_div_nonincreasing, lemma_div_pos_is_pos, lemma_fundamental_div_mod, lemma_mod_bound,
};
use vstd::prelude::*;

verus! {

/// An arithmetic expression over one variable.
#[derive(PartialEq, Debug)]
pub enum Expr {
    Const(i64),
    Add(Box<Expr>, Box<Expr>),
    Sub(Box<Expr>, Box<Expr>),
    Var,
    Summation(Vec<Expr>),
    Mul(Box<Expr>, Box<Expr>),
    Div(Box<Expr>, Box<Expr>),
    Sigma(Box<Expr>, Box<Expr>, Box<Expr>),
}

/// How the evaluation of an expression ends.
pub enum Outcome {
    /// With this number.
    Value(int),
    /// At a division by zero.
    DivByZero,
    /// At an operation whose result no `i64` holds.
    Overflow,
}

/// Whether an `i64` holds `n`.
pub open spec fn in_range(n: int) -> bool {
    i64::MIN <= n <= i64::MAX
}

/// The number if an `i64` holds it.
pub open spec fn checked(n: int) -> Outcome {
    if in_range(n) {
        Outcome::Value(n)
    } else {
        Outcome::Overflow
    }
}

/// The quotient rounded towards zero, as the machine divides.
pub open spec fn quotient(a: int, b: int) -> int
    recommends
        b != 0,
{
    if a >= 0 {
        a / b
    } else {
        -((-a) / b)
    }
}

/// `first..=last` summed from the left, one number after the other.
pub open spec fn sum_range(first: int, last: int) -> Outcome
    decreases last - first + 1,
{
    if last < first {
        Outcome::Value(0)
    } else {
        match sum_range(first, last - 1) {
            Outcome::Value(acc) => checked(acc + last),
            other => other,
        }
    }
}

/// The first `n` of `exprs` evaluated and summed from the left.
pub open spec fn sum_outcome(exprs: Vec<Expr>, var: int, n: nat) -> Outcome
    decreases exprs, n,
{
    if n == 0 || n > exprs@.len() {
        Outcome::Value(0)
    } else {
        match sum_outcome(exprs, var, (n - 1) as nat) {
            Outcome::Value(acc) => match outcome(exprs@[n - 1], var) {
                Outcome::Value(v) => checked(acc + v),
                other => other,
            },
            other => other,
        }
    }
}

/// How the evaluation of `expr` ends where the variable is `var`. The
/// operands are taken from the left, but for a division, whose divisor
/// comes first; the first operand that fails decides. `Sigma` sums the
/// numbers from its first operand to its second and leaves its third alone.
pub open spec fn outcome(expr: Expr, var: int) -> Outcome
    decreases expr, 0nat,
{
    match expr {
        Expr::Const(k) => Outcome::Value(k as int),
        Expr::Var => Outcome::Value(var),
        Expr::Add(lhs, rhs) => match outcome(*lhs, var) {
            Outcome::Value(a) => match outcome(*rhs, var) {
                Outcome::Value(b) => checked(a + b),
                other => other,
            },
            other => other,
        },
        Expr::Sub(lhs, rhs) => match outcome(*lhs, var) {
            Outcome::Value(a) => match outcome(*rhs, var) {
                Outcome::Value(b) => checked(a - b),
                other => other,
            },
            other => other,
        },
        Expr::Mul(lhs, rhs) => match outcome(*lhs, var) {
            Outcome::Value(a) => match outcome(*rhs, var) {
                Outcome::Value(b) => checked(a * b),
                other => other,
            },
            other => other,
        },
        Expr::Div(lhs, rhs) => match outcome(*rhs, var) {
            Outcome::Value(divisor) => if divisor == 0 {
                Outcome::DivByZero
            } else {
                match outcome(*lhs, var) {
                    Outcome::Value(a) => checked(quotient(a, divisor)),
                    other => other,
                }
            },
            other => other,
        },
        Expr::Summation(exprs) => sum_outcome(exprs, var, exprs@.len()),
        Expr::Sigma(s, e, _) => match outcome(*s, var) {
            Outcome::Value(first) => match outcome(*e, var) {
                Outcome::Value(last) => sum_range(first, last),
                other => other,
            },
            other => other,
        },
    }
}

/// The sum of two expressions.
pub fn add(x: Expr, y: Expr) -> (e: Expr)
    ensures
        e == Expr::Add(Box::new(x), Box::new(y)),
{
    Expr::Add(Box::new(x), Box::new(y))
}

/// The difference of two expressions.
pub fn sub(x: Expr, y: Expr) -> (e: Expr)
    ensures
        e == Expr::Sub(Box::new(x), Box::new(y)),
{
    Expr::Sub(Box::new(x), Box::new(y))
}

/// The product of two expressions.
pub fn mul(x: Expr, y: Expr) -> (e: Expr)
    ensures
        e == Expr::Mul(Box::new(x), Box::new(y)),
{
    Expr::Mul(Box::new(x), Box::new(y))
}

/// The quotient of two expressions.
pub fn div(x: Expr, y: Expr) -> (e: Expr)
    ensures
        e == Expr::Div(Box::new(x), Box::new(y)),
{
    Expr::Div(Box::new(x), Box::new(y))
}

/// The sum of the numbers from `start` to `end`.
pub fn sigma(start: Expr, end: Expr, v: Expr) -> (e: Expr)
    ensures
        e == Expr::Sigma(Box::new(start), Box::new(end), Box::new(v)),
{
    Expr::Sigma(Box::new(start), Box::new(end), Box::new(v))
}

/// The value of `expr` where the variable is `var`, or `None` where the
/// evaluation divides by zero.
pub fn eval(expr: &Expr, var: i64) -> (ans: Option<i64>)
    requires
        outcome(*expr, var as int) !is Overflow,
    ensures
        match outcome(*expr, var as int) {
            Outcome::Value(v) => ans == Some(v as i64) && in_range(v),
            _ => ans.is_none(),
        },
    decreases expr,
{
    let ans = match expr {
        Expr::Const(k) => *k,
        Expr::Var => var,
        Expr::Add(lhs, rhs) => eval(lhs, var)? + eval(rhs, var)?,
        Expr::Sub(lhs, rhs) => eval(lhs, var)? - eval(rhs, var)?,
        Expr::Mul(lhs, rhs) => eval(lhs, var)? * eval(rhs, var)?,
        Expr::Div(lhs, rhs) => {
            let divisor = eval(rhs, var)?;
            if divisor == 0 {
                return None;
            } else {
                let dividend = eval(lhs, var)?;
                return Some(divide(dividend, divisor));
            }
        },
        Expr::Summation(exprs) => {
            let mut acc: i64 = 0;
            let mut i: usize = 0;
            while i < exprs.len()
                invariant
                    i <= exprs@.len(),
                    *expr == Expr::Summation(*exprs),
                    outcome(*expr, var as int) !is Overflow,
                    sum_outcome(*exprs, var as int, i as nat) == Outcome::Value(acc as int),
                decreases exprs@.len() - i,
            {
                proof {
                    lemma_sum_prefix(*exprs, var as int, (i + 1) as nat);
                }
                acc += eval(&exprs[i], var)?;
                i += 1;
            }
            acc
        },
        Expr::Sigma(s, e, _) => {
            let start = eval(s, var)?;
            let end = eval(e, var)?;
            let mut acc: i64 = 0;
            if start <= end {
                let mut step: i64 = start;
                loop
                    invariant_except_break
                        start <= step <= end,
                        sum_range(start as int, step - 1) == Outcome::Value(acc as int),
                        sum_range(start as int, end as int) !is Overflow,
                    ensures
                        sum_range(start as int, end as int) == Outcome::Value(acc as int),
                    decreases end - step,
                {
                    proof {
                        lemma_range_prefix(start as int, step as int, end as int);
                    }
                    acc += step;
                    if step == end {
                        break ;
                    }
                    step += 1;
                }
            }
            acc
        },
    };

    Some(ans)
}

/// How an evaluation ends, in the machine's numbers.
#[derive(Debug, PartialEq, Eq, Structural)]
pub enum Evaluation {
    /// With this number.
    Value(i64),
    /// At a division by zero.
    DivByZero,
    /// At an operation whose result no `i64` holds.
    Overflow,
}

impl Evaluation {
    /// The same as an `Outcome`.
    pub open spec fn outcome(self) -> Outcome {
        match self {
            Evaluation::Value(v) => Outcome::Value(v as int),
            Evaluation::DivByZero => Outcome::DivByZero,
            Evaluation::Overflow => Outcome::Overflow,
        }
    }
}

/// The sum, if an `i64` holds it.
fn checked_sum(a: i64, b: i64) -> (r: Evaluation)
    ensures
        r.outcome() == checked(a + b),
{
    match a.checked_add(b) {
        Some(v) => Evaluation::Value(v),
        None => Evaluation::Overflow,
    }
}

/// How the evaluation of `expr` ends where the variable is `var`, for every
/// expression: an overflow is told, not run into.
pub fn try_eval(expr: &Expr, var: i64) -> (r: Evaluation)
    ensures
        r.outcome() == outcome(*expr, var as int),
    decreases expr,
{
    match expr {
        Expr::Const(k) => Evaluation::Value(*k),
        Expr::Var => Evaluation::Value(var),
        Expr::Add(lhs, rhs) => {
            let a = match try_eval(lhs, var) {
                Evaluation::Value(a) => a,
                other => {
                    return other;
                },
            };
            let b = match try_eval(rhs, var) {
                Evaluation::Value(b) => b,
                other => {
                    return other;
                },
            };
            checked_sum(a, b)
        },
        Expr::Sub(lhs, rhs) => {
            let a = match try_eval(lhs, var) {
                Evaluation::Value(a) => a,
                other => {
                    return other;
                },
            };
            let b = match try_eval(rhs, var) {
                Evaluation::Value(b) => b,
                other => {
                    return other;
                },
            };
            match a.checked_sub(b) {
                Some(v) => Evaluation::Value(v),
                None => Evaluation::Overflow,
            }
        },
        Expr::Mul(lhs, rhs) => {
            let a = match try_eval(lhs, var) {
                Evaluation::Value(a) => a,
                other => {
                    return other;
                },
            };
            let b = match try_eval(rhs, var) {
                Evaluation::Value(b) => b,
                other => {
                    return other;
                },
            };
            match a.checked_mul(b) {
                Some(v) => Evaluation::Value(v),
                None => Evaluation::Overflow,
            }
        },
        Expr::Div(lhs, rhs) => {
            let divisor = match try_eval(rhs, var) {
                Evaluation::Value(d) => d,
                other => {
                    return other;
                },
            };
            if divisor == 0 {
                return Evaluation::DivByZero;
            }
            let a = match try_eval(lhs, var) {
                Evaluation::Value(a) => a,
                other => {
                    return other;
                },
            };
            if a == i64::MIN && divisor == -1 {
                assert(!in_range(quotient(a as int, divisor as int))) by {
                    lemma_fundamental_div_mod(-(a as int), divisor as int);
                    lemma_mod_bound(-(a as int), 1);
                }
                Evaluation::Overflow
            } else {
                proof {
                    lemma_quotient_fits(a as int, divisor as int);
                }
                Evaluation::Value(divide(a, divisor))
            }
        },
        Expr::Summation(exprs) => {
            let mut acc: i64 = 0;
            let mut i: usize = 0;
            while i < exprs.len()
                invariant
                    i <= exprs@.len(),
                    *expr == Expr::Summation(*exprs),
                    sum_outcome(*exprs, var as int, i as nat) == Outcome::Value(acc as int),
                decreases exprs@.len() - i,
            {
                let next = match try_eval(&exprs[i], var) {
                    Evaluation::Value(v) => checked_sum(acc, v),
                    other => other,
                };
                match next {
                    Evaluation::Value(sum) => {
                        acc = sum;
                    },
                    other => {
                        proof {
                            lemma_sum_stops(*exprs, var as int, (i + 1) as nat);
                        }
                        return other;
                    },
                }
                i += 1;
            }
            Evaluation::Value(acc)
        },
        Expr::Sigma(s, e, _) => {
            let start = match try_eval(s, var) {
                Evaluation::Value(v) => v,
                other => {
                    return other;
                },
            };
            let end = match try_eval(e, var) {
                Evaluation::Value(v) => v,
                other => {
                    return other;
                },
            };
            let mut acc: i64 = 0;
            if start <= end {
                let mut step: i64 = start;
                loop
                    invariant_except_break
                        start <= step <= end,
                        sum_range(start as int, step - 1) == Outcome::Value(acc as int),
                    invariant
                        outcome(*expr, var as int) == sum_range(start as int, end as int),
                    ensures
                        sum_range(start as int, end as int) == Outcome::Value(acc as int),
                    decreases end - step,
                {
                    match acc.checked_add(step) {
                        Some(sum) => {
                            acc = sum;
                        },
                        None => {
                            proof {
                                lemma_range_stops(start as int, step as int, end as int);
                            }
                            return Evaluation::Overflow;
                        },
                    }
                    if step == end {
                        break ;
                    }
                    step += 1;
                }
            }
            Evaluation::Value(acc)
        },
    }
}

/// The machine's division of `a` by `b`.
fn divide(a: i64, b: i64) -> (q: i64)
    requires
        b != 0,
        in_range(quotient(a as int, b as int)),
    ensures
        q == quotient(a as int, b as int),
{
    a / b
}

/// A sum that does not overflow has no prefix that overflows or divides by
/// zero.
proof fn lemma_sum_prefix(exprs: Vec<Expr>, var: int, n: nat)
    requires
        n <= exprs@.len(),
        sum_outcome(exprs, var, exprs@.len()) !is Overflow,
    ensures
        sum_outcome(exprs, var, n) !is Overflow,
        sum_outcome(exprs, var, n) is DivByZero ==> sum_outcome(exprs, var, exprs@.len()) is DivByZero,
    decreases exprs@.len() - n,
{
    if n < exprs@.len() {
        lemma_sum_prefix(exprs, var, n + 1);
    }
}

/// A sum that stops at one of its first `n` terms stops there whatever
/// follows.
proof fn lemma_sum_stops(exprs: Vec<Expr>, var: int, n: nat)
    requires
        n <= exprs@.len(),
        !(sum_outcome(exprs, var, n) is Value),
    ensures
        sum_outcome(exprs, var, exprs@.len()) == sum_outcome(exprs, var, n),
    decreases exprs@.len() - n,
{
    if n < exprs@.len() {
        lemma_sum_stops(exprs, var, n + 1);
    }
}

/// A range whose sum overflows at `step` overflows, wherever it ends.
proof fn lemma_range_stops(first: int, step: int, last: int)
    requires
        first <= step <= last,
        sum_range(first, step) is Overflow,
    ensures
        sum_range(first, last) is Overflow,
    decreases last - step,
{
    if step < last {
        lemma_range_stops(first, step + 1, last);
    }
}

/// The machine's quotient of two of its numbers is one of its numbers, but
/// for the least of them divided by minus one.
proof fn lemma_quotient_fits(a: int, d: int)
    requires
        in_range(a),
        in_range(d),
        d != 0,
        !(a == i64::MIN && d == -1),
    ensures
        in_range(quotient(a, d)),
{
    let p = if a >= 0 {
        a
    } else {
        -a
    };
    if d > 0 {
        lemma_div_nonincreasing(p, d);
        lemma_div_pos_is_pos(p, d);
    } else {
        lemma_fundamental_div_mod(p, d);
        let q = p / d;
        let r = p % d;
        assert(0 <= r < -d) by {
            lemma_mod_bound(p, -d);
        }
        assert(-p <= q <= 0) by (nonlinear_arith)
            requires
                p == d * q + r,
                0 <= r < -d,
                d < 0,
                p >= 0,
        ;
        if d == -1 {
            assert(q == -p) by (nonlinear_arith)
                requires
                    p == d * q + r,
                    0 <= r < -d,
                    d == -1,
            ;
        } else {
            assert(2 * q >= -p) by (nonlinear_arith)
                requires
                    p == d * q + r,
                    0 <= r < -d,
                    d <= -2,
                    p >= 0,
                    q <= 0,
            ;
        }
    }
}

/// A range whose sum does not overflow has no prefix whose sum does.
proof fn lemma_range_prefix(first: int, step: int, last: int)
    requires
        first <= step <= last,
        sum_range(first, last) !is Overflow,
    ensures
        sum_range(first, step) !is Overflow,
        sum_range(first, step) !is DivByZero,
        sum_range(first, step - 1) !is DivByZero,
    decreases last - step,
{
    if step < last {
        lemma_range_prefix(first, step + 1, last);
    }
    lemma_range_no_div(first, step);
    lemma_range_no_div(first, step - 1);
}

/// The sum of a range divides by nothing.
proof fn lemma_range_no_div(first: int, last: int)
    ensures
        sum_range(first, last) !is DivByZero,
    decreases last - first + 1,
{
    if last >= first {
        lemma_range_no_div(first, last - 1);
    }
}

} // verus!
