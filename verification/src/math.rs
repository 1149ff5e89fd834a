//! Mathematical functions: domain validation and dispatch.
//!
//! Domain checks (asin/acos need an argument in [-1, 1], logarithms a
//! positive one, square root a non-negative one, inversion a nonzero one)
//! are decided here, exactly. The reciprocal is computed in decimal
//! arithmetic; the transcendental functions have no decimal implementation,
//! so a validated request is handed back as `MathEval::Pending` for the
//! host to evaluate, and the calculator applies the result through
//! `apply_math_result`.

use crate::error::StackError;
use crate::text::str_eq;
use crate::value::{Value, pow10, spec_div, spec_mul, spec_make, div_val, mul_val, MANT_MIN};
use vstd::prelude::*;
use vstd::string::*;

verus! {

/// A transcendental function the host must evaluate.
#[derive(Clone, Copy, Debug, PartialEq, Eq, Structural)]
pub enum MathFunction {
    Sin,
    Cos,
    Tan,
    Asin,
    Acos,
    Atan,
    Log,
    Ln,
    Exp,
    Sqrt,
}

/// The outcome of a validated math call: a finished value, or a pending
/// transcendental request.
#[derive(Clone, Copy, Debug, PartialEq, Eq, Structural)]
pub enum MathEval {
    /// The result, computed here.
    Done(Value),
    /// A validated request for the host to evaluate.
    Pending(MathFunction),
}

/// Whether |x| > 1.
pub open spec fn spec_abs_gt_one(x: Value) -> bool {
    x.mant != 0 && (x.exp > 0 || (x.exp == 0 && x.mant > MANT_MIN))
}

/// Whether x > 0.
pub open spec fn spec_is_pos(x: Value) -> bool {
    !x.neg && x.mant != 0
}

/// The value one.
pub open spec fn spec_one() -> Value {
    Value { neg: false, mant: MANT_MIN, exp: 0 }
}

/// 0!, 1!, ..., n! as rounded decimal values, where `None` records an
/// overflow along the way.
pub open spec fn spec_factorial(n: nat) -> Option<Value>
    decreases n,
{
    if n <= 1 {
        Some(spec_one())
    } else {
        match spec_factorial((n - 1) as nat) {
            Some(p) => spec_mul(p, spec_make(false, n, 0).unwrap()),
            None => None,
        }
    }
}

/// Execute a mathematical function on a value: the domain is validated
/// here; `inv` is computed, the transcendentals come back as pending
/// requests.
#[verifier::rlimit(60)]
pub fn execute_math_function(function: &str, x: Value) -> (r: Result<MathEval, StackError>)
    requires
        x.wf(),
    ensures
        function@ == "sin"@ ==> r == Ok::<MathEval, StackError>(MathEval::Pending(
            MathFunction::Sin,
        )),
        function@ == "cos"@ ==> r == Ok::<MathEval, StackError>(MathEval::Pending(
            MathFunction::Cos,
        )),
        function@ == "tan"@ ==> r == Ok::<MathEval, StackError>(MathEval::Pending(
            MathFunction::Tan,
        )),
        function@ == "atan"@ ==> r == Ok::<MathEval, StackError>(MathEval::Pending(
            MathFunction::Atan,
        )),
        function@ == "exp"@ ==> r == Ok::<MathEval, StackError>(MathEval::Pending(
            MathFunction::Exp,
        )),
        function@ == "asin"@ ==> (if spec_abs_gt_one(x) {
            r matches Err(StackError::MathError(m)) && m@ == "Input must be in range [-1, 1]"@
        } else {
            r == Ok::<MathEval, StackError>(MathEval::Pending(MathFunction::Asin))
        }),
        function@ == "acos"@ ==> (if spec_abs_gt_one(x) {
            r matches Err(StackError::MathError(m)) && m@ == "Input must be in range [-1, 1]"@
        } else {
            r == Ok::<MathEval, StackError>(MathEval::Pending(MathFunction::Acos))
        }),
        function@ == "log"@ ==> (if !spec_is_pos(x) {
            r matches Err(StackError::MathError(m)) && m@ == "log requires positive input"@
        } else {
            r == Ok::<MathEval, StackError>(MathEval::Pending(MathFunction::Log))
        }),
        function@ == "ln"@ ==> (if !spec_is_pos(x) {
            r matches Err(StackError::MathError(m)) && m@ == "ln requires positive input"@
        } else {
            r == Ok::<MathEval, StackError>(MathEval::Pending(MathFunction::Ln))
        }),
        function@ == "sqrt"@ ==> (if x.neg {
            r matches Err(StackError::MathError(m)) && m@ == "sqrt requires non-negative input"@
        } else {
            r == Ok::<MathEval, StackError>(MathEval::Pending(MathFunction::Sqrt))
        }),
        function@ == "inv"@ ==> (if x.spec_is_zero() {
            r == Err::<MathEval, StackError>(StackError::DivisionByZero)
        } else {
            match spec_div(spec_one(), x) {
                Some(v) => r == Ok::<MathEval, StackError>(MathEval::Done(v)) && v.wf(),
                None => (r matches Err(StackError::MathError(m)) && m@ == "inv: Overflow"@),
            }
        }),
        (function@ != "sin"@ && function@ != "cos"@ && function@ != "tan"@ && function@ != "asin"@
            && function@ != "acos"@ && function@ != "atan"@ && function@ != "log"@ && function@
            != "ln"@ && function@ != "exp"@ && function@ != "sqrt"@ && function@ != "inv"@) ==> (
        r matches Err(StackError::MathError(m)) && m@ == "Unknown function '"@ + function@ + "'"@),
{
    proof {
        reveal_strlit("sin");
        reveal_strlit("cos");
        reveal_strlit("tan");
        reveal_strlit("asin");
        reveal_strlit("acos");
        reveal_strlit("atan");
        reveal_strlit("log");
        reveal_strlit("ln");
        reveal_strlit("exp");
        reveal_strlit("sqrt");
        reveal_strlit("inv");
        // Pin each literal's characters so distinct names are provably distinct.
        assert(("sin"@).len() == 3 && ("sin"@)[0] == 's' && ("sin"@)[1] == 'i' && ("sin"@)[2] == 'n');
        assert(("cos"@).len() == 3 && ("cos"@)[0] == 'c' && ("cos"@)[1] == 'o' && ("cos"@)[2] == 's');
        assert(("tan"@).len() == 3 && ("tan"@)[0] == 't' && ("tan"@)[1] == 'a' && ("tan"@)[2] == 'n');
        assert(("asin"@).len() == 4 && ("asin"@)[0] == 'a' && ("asin"@)[1] == 's' && ("asin"@)[2] == 'i' && ("asin"@)[3] == 'n');
        assert(("acos"@).len() == 4 && ("acos"@)[0] == 'a' && ("acos"@)[1] == 'c' && ("acos"@)[2] == 'o' && ("acos"@)[3] == 's');
        assert(("atan"@).len() == 4 && ("atan"@)[0] == 'a' && ("atan"@)[1] == 't' && ("atan"@)[2] == 'a' && ("atan"@)[3] == 'n');
        assert(("log"@).len() == 3 && ("log"@)[0] == 'l' && ("log"@)[1] == 'o' && ("log"@)[2] == 'g');
        assert(("ln"@).len() == 2 && ("ln"@)[0] == 'l' && ("ln"@)[1] == 'n');
        assert(("exp"@).len() == 3 && ("exp"@)[0] == 'e' && ("exp"@)[1] == 'x' && ("exp"@)[2] == 'p');
        assert(("sqrt"@).len() == 4 && ("sqrt"@)[0] == 's' && ("sqrt"@)[1] == 'q' && ("sqrt"@)[2] == 'r' && ("sqrt"@)[3] == 't');
        assert(("inv"@).len() == 3 && ("inv"@)[0] == 'i' && ("inv"@)[1] == 'n' && ("inv"@)[2] == 'v');
    }
    if str_eq(function, "sin") {
        Ok(MathEval::Pending(MathFunction::Sin))
    } else if str_eq(function, "cos") {
        Ok(MathEval::Pending(MathFunction::Cos))
    } else if str_eq(function, "tan") {
        Ok(MathEval::Pending(MathFunction::Tan))
    } else if str_eq(function, "atan") {
        Ok(MathEval::Pending(MathFunction::Atan))
    } else if str_eq(function, "exp") {
        Ok(MathEval::Pending(MathFunction::Exp))
    } else if str_eq(function, "asin") {
        if abs_gt_one(&x) {
            Err(StackError::MathError(String::from_str("Input must be in range [-1, 1]")))
        } else {
            Ok(MathEval::Pending(MathFunction::Asin))
        }
    } else if str_eq(function, "acos") {
        if abs_gt_one(&x) {
            Err(StackError::MathError(String::from_str("Input must be in range [-1, 1]")))
        } else {
            Ok(MathEval::Pending(MathFunction::Acos))
        }
    } else if str_eq(function, "log") {
        if !is_pos(&x) {
            Err(StackError::MathError(String::from_str("log requires positive input")))
        } else {
            Ok(MathEval::Pending(MathFunction::Log))
        }
    } else if str_eq(function, "ln") {
        if !is_pos(&x) {
            Err(StackError::MathError(String::from_str("ln requires positive input")))
        } else {
            Ok(MathEval::Pending(MathFunction::Ln))
        }
    } else if str_eq(function, "sqrt") {
        if x.neg {
            Err(StackError::MathError(String::from_str("sqrt requires non-negative input")))
        } else {
            Ok(MathEval::Pending(MathFunction::Sqrt))
        }
    } else if str_eq(function, "inv") {
        if x.is_zero() {
            Err(StackError::DivisionByZero)
        } else {
            let one = Value { neg: false, mant: MANT_MIN, exp: 0 };
            match div_val(&one, &x) {
                Some(v) => Ok(MathEval::Done(v)),
                None => Err(StackError::MathError(String::from_str("inv: Overflow"))),
            }
        }
    } else {
        Err(
            StackError::MathError(
                String::from_str("Unknown function '").concat(function).concat("'"),
            ),
        )
    }
}

/// Whether |x| > 1.
fn abs_gt_one(x: &Value) -> (r: bool)
    ensures
        r == spec_abs_gt_one(*x),
{
    x.mant != 0 && (x.exp > 0 || (x.exp == 0 && x.mant > MANT_MIN))
}

/// Whether x > 0.
fn is_pos(x: &Value) -> (r: bool)
    ensures
        r == spec_is_pos(*x),
{
    !x.neg && x.mant != 0
}

/// The factorial of a non-negative integer value no larger than 170,
/// computed by repeated decimal multiplication. A negative, too large, or
/// fractional argument is rejected before anything is computed.
pub fn factorial(x: Value) -> (r: Result<Value, StackError>)
    requires
        x.wf(),
    ensures
        x.neg ==> (r matches Err(StackError::MathError(m)) && m@
            == "Factorial requires non-negative input"@),
        !x.neg && (x.exp > 2 || (x.exp == 2 && x.mant > 170_000_000_000_000)) ==> (r matches Err(
            StackError::MathError(m),
        ) && m@ == "Factorial input must be <= 170"@),
        !x.neg && !(x.exp > 2 || (x.exp == 2 && x.mant > 170_000_000_000_000)) && !(
        x.spec_is_zero() || value_as_small_int(x) is Some) ==> (r matches Err(
            StackError::MathError(m),
        ) && m@ == "Factorial requires integer input"@),
        !x.neg && !(x.exp > 2 || (x.exp == 2 && x.mant > 170_000_000_000_000)) && (
        x.spec_is_zero() || value_as_small_int(x) is Some) ==> ({
            let n = if x.spec_is_zero() {
                0
            } else {
                value_as_small_int(x).unwrap()
            };
            match spec_factorial(n as nat) {
                Some(v) => r == Ok::<Value, StackError>(v) && v.wf(),
                None => (r matches Err(StackError::MathError(m)) && m@ == "Factorial overflow"@),
            }
        }),
{
    if x.neg {
        return Err(StackError::MathError(String::from_str("Factorial requires non-negative input")));
    }
    if x.exp > 2 || (x.exp == 2 && x.mant > 170_000_000_000_000) {
        return Err(StackError::MathError(String::from_str("Factorial input must be <= 170")));
    }
    let n: u64 = if x.mant == 0 {
        0
    } else if x.exp < 0 {
        return Err(StackError::MathError(String::from_str("Factorial requires integer input")));
    } else {
        proof {
            crate::value::lemma_pow10_val();
            crate::value::lemma_pow10_mono((14 - x.exp) as nat, 14nat);
            crate::value::lemma_pow10_pos((14 - x.exp) as nat);
        }
        let p = crate::value::pow10_u128((14 - x.exp) as u32);
        let q = (x.mant as u128) / p;
        let rem = (x.mant as u128) % p;
        if rem != 0 {
            return Err(
                StackError::MathError(String::from_str("Factorial requires integer input")),
            );
        }
        proof {
            vstd::arithmetic::div_mod::lemma_div_nonincreasing(x.mant as int, p as int);
            assert((q as int) < 1000) by {
                crate::value::lemma_pow10_val();
                assert(pow10((14 - x.exp) as nat) * pow10((x.exp + 1) as nat) == pow10(15)) by {
                    crate::value::lemma_pow10_adds((14 - x.exp) as nat, (x.exp + 1) as nat);
                }
                vstd::arithmetic::div_mod::lemma_multiply_divide_lt(
                    x.mant as int,
                    p as int,
                    pow10((x.exp + 1) as nat),
                );
                crate::value::lemma_pow10_mono((x.exp + 1) as nat, 3nat);
                assert(pow10(3) == 1000) by {
                    reveal_with_fuel(pow10, 5);
                }
            }
        }
        q as u64
    };
    let mut acc = Value { neg: false, mant: MANT_MIN, exp: 0 };
    let mut i: u64 = 1;
    while i < n
        invariant
            1 <= i,
            n <= 999,
            !x.neg,
            !(x.exp > 2 || (x.exp == 2 && x.mant > 170_000_000_000_000)),
            x.spec_is_zero() || value_as_small_int(x) is Some,
            n == (if x.spec_is_zero() {
                0u64
            } else {
                value_as_small_int(x).unwrap()
            }),
            n <= 1 ==> i == 1,
            i <= if n <= 1 {
                1u64
            } else {
                n
            },
            spec_factorial(i as nat) == Some(acc),
            acc.wf(),
        decreases n - i,
    {
        proof {
            crate::value::lemma_pow10_val();
        }
        let step = Value::from_int(i + 1);
        match mul_val(&acc, &step) {
            Some(v) => {
                acc = v;
            },
            None => {
                proof {
                    lemma_factorial_none_persists((i + 1) as nat, n as nat);
                }
                return Err(StackError::MathError(String::from_str("Factorial overflow")));
            },
        }
        i = i + 1;
    }
    Ok(acc)
}

/// The value 180, the degree count of a half turn.
pub open spec fn spec_half_turn() -> Value {
    Value { neg: false, mant: 180_000_000_000_000, exp: 2 }
}

/// Degrees converted to radians: multiply by pi, divide by 180. Both
/// steps round to 15 significant digits; `None` on overflow.
pub fn deg_to_rad(degrees: Value) -> (r: Option<Value>)
    requires
        degrees.wf(),
    ensures
        ({
            match spec_mul(degrees, crate::execution::spec_pi()) {
                Some(p) => r == spec_div(p, spec_half_turn()),
                None => r is None,
            }
        }),
        r is Some ==> r.unwrap().wf(),
{
    let pi = Value { neg: false, mant: 314_159_265_358_979, exp: 0 };
    let d180 = Value { neg: false, mant: 180_000_000_000_000, exp: 2 };
    match mul_val(&degrees, &pi) {
        Some(p) => div_val(&p, &d180),
        None => None,
    }
}

/// Radians converted to degrees: multiply by 180, divide by pi. Both
/// steps round to 15 significant digits; `None` on overflow.
pub fn rad_to_deg(radians: Value) -> (r: Option<Value>)
    requires
        radians.wf(),
    ensures
        ({
            match spec_mul(radians, spec_half_turn()) {
                Some(p) => r == spec_div(p, crate::execution::spec_pi()),
                None => r is None,
            }
        }),
        r is Some ==> r.unwrap().wf(),
{
    let pi = Value { neg: false, mant: 314_159_265_358_979, exp: 0 };
    let d180 = Value { neg: false, mant: 180_000_000_000_000, exp: 2 };
    match mul_val(&radians, &d180) {
        Some(p) => div_val(&p, &pi),
        None => None,
    }
}

/// Once the running factorial overflows, every later factorial does too.
proof fn lemma_factorial_none_persists(k: nat, m: nat)
    requires
        1 <= k <= m,
        spec_factorial(k) is None,
    ensures
        spec_factorial(m) is None,
    decreases m - k,
{
    if k < m {
        lemma_factorial_none_persists(k + 1, m);
    }
}

/// The integer a value denotes, when it is a positive integer at most
/// three digits long.
pub open spec fn value_as_small_int(x: Value) -> Option<u64> {
    if x.mant == 0 {
        Some(0)
    } else if x.exp < 0 || x.exp > 2 {
        None
    } else if x.mant as int % crate::value::pow10((14 - x.exp) as nat) == 0 {
        Some((x.mant as int / crate::value::pow10((14 - x.exp) as nat)) as u64)
    } else {
        None
    }
}

} // verus!
