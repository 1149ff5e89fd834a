//! The 4-level RPN stack (X, Y, Z, T registers) with the HP-41C lift and
//! drop behaviors.
//!
//! `lift` shifts X up through Y, Z, T and discards the old T. A binary
//! operation computes f(Y, X), then "drops": the result lands in X, Z moves
//! to Y, T moves to Z, and T itself is preserved — the old top register is
//! duplicated, never lost. The `lifted` flag is advisory: the caller checks
//! `should_lift` before starting new number entry and invokes `lift`
//! itself.

use crate::error::StackError;
use crate::value::{Value, spec_add, spec_div, spec_mul, spec_sub, add_val, div_val, mul_val,
    sub_val};
use vstd::prelude::*;
use vstd::string::*;

verus! {

/// The 4-level RPN stack.
#[derive(Clone, Debug)]
pub struct Stack {
    /// The X register (bottom of stack, the display register).
    pub x: Value,
    /// The Y register.
    pub y: Value,
    /// The Z register.
    pub z: Value,
    /// The T register (top of stack).
    pub t: Value,
    /// Flag indicating if the stack should lift on next number entry.
    pub lifted: bool,
}

/// The stack after a lift: X stays, X moves to Y, Y to Z, Z to T; the old
/// T is discarded. The lift flag is untouched.
pub open spec fn spec_lift(s: Stack) -> Stack {
    Stack { x: s.x, y: s.x, z: s.y, t: s.z, lifted: s.lifted }
}

/// The stack after a binary operation produced `v`: the result lands in X,
/// Z moves to Y, T moves to Z, T is preserved, and the lift flag is set.
pub open spec fn spec_drop(s: Stack, v: Value) -> Stack {
    Stack { x: v, y: s.z, z: s.t, t: s.t, lifted: true }
}

impl Stack {
    /// All four registers are well-formed values.
    pub open spec fn wf(self) -> bool {
        self.x.wf() && self.y.wf() && self.z.wf() && self.t.wf()
    }

    /// A new stack with all registers set to zero.
    pub fn new() -> (r: Stack)
        ensures
            r.wf(),
            r.x.spec_is_zero() && r.y.spec_is_zero() && r.z.spec_is_zero() && r.t.spec_is_zero(),
            !r.lifted,
    {
        Stack {
            x: Value::zero(),
            y: Value::zero(),
            z: Value::zero(),
            t: Value::zero(),
            lifted: false,
        }
    }

    /// The value in the X register (bottom of stack).
    pub fn get_x(&self) -> (r: Value)
        ensures
            r == self.x,
    {
        self.x
    }

    /// The value in the Y register.
    pub fn get_y(&self) -> (r: Value)
        ensures
            r == self.y,
    {
        self.y
    }

    /// The value in the Z register.
    pub fn get_z(&self) -> (r: Value)
        ensures
            r == self.z,
    {
        self.z
    }

    /// The value in the T register (top of stack).
    pub fn get_t(&self) -> (r: Value)
        ensures
            r == self.t,
    {
        self.t
    }

    /// Set the X register directly (used for number entry).
    pub fn set_x(&mut self, value: Value)
        ensures
            *final(self) == (Stack { x: value, ..*old(self) }),
    {
        self.x = value;
    }

    /// Whether the stack should lift on next entry.
    pub fn should_lift(&self) -> (r: bool)
        ensures
            r == self.lifted,
    {
        self.lifted
    }

    /// Set the lift flag.
    pub fn set_lift_flag(&mut self, value: bool)
        ensures
            *final(self) == (Stack { lifted: value, ..*old(self) }),
    {
        self.lifted = value;
    }

    /// Set all four registers at once (X, Y, Z, T order).
    pub fn set_registers(&mut self, x: Value, y: Value, z: Value, t: Value)
        ensures
            *final(self) == (Stack { x, y, z, t, lifted: old(self).lifted }),
    {
        self.x = x;
        self.y = y;
        self.z = z;
        self.t = t;
    }

    /// A copy of all registers in X, Y, Z, T order.
    pub fn get_registers(&self) -> (r: [Value; 4])
        ensures
            r[0] == self.x && r[1] == self.y && r[2] == self.z && r[3] == self.t,
    {
        [self.x, self.y, self.z, self.t]
    }

    /// Push a value onto the stack, lifting first if the flag asks for it.
    pub fn push(&mut self, value: Value)
        ensures
            old(self).lifted ==> *final(self) == (Stack {
                x: value,
                lifted: true,
                ..spec_lift(*old(self))
            }),
            !old(self).lifted ==> *final(self) == (Stack {
                x: value,
                lifted: true,
                ..*old(self)
            }),
    {
        if self.lifted {
            self.lift();
        }
        self.x = value;
        self.lifted = true;
    }

    /// Lift the stack: X stays in place and is copied into Y, Y moves to
    /// Z, Z moves to T, and the old T is lost.
    pub fn lift(&mut self)
        ensures
            *final(self) == spec_lift(*old(self)),
    {
        self.t = self.z;
        self.z = self.y;
        self.y = self.x;
    }

    /// Place the result of a binary operation: on `Some`, the stack drops
    /// (result to X, Z to Y, T duplicated into Z, T preserved) and the
    /// lift flag is set; on `None` the stack is unchanged and an overflow
    /// error is returned.
    pub fn finish_binary(&mut self, res: Option<Value>) -> (r: Result<Value, StackError>)
        ensures
            res is Some ==> r == Ok::<Value, StackError>(res.unwrap()) && *final(self) == spec_drop(
                *old(self),
                res.unwrap(),
            ),
            res is None ==> *final(self) == *old(self) && (r matches Err(
                StackError::MathError(m),
            ) && m@ == "Overflow"@),
    {
        match res {
            Some(v) => {
                self.x = self.y;
                self.y = self.z;
                self.z = self.t;
                self.x = v;
                self.lifted = true;
                Ok(v)
            },
            None => Err(StackError::MathError(String::from_str("Overflow"))),
        }
    }

    /// Addition: Y + X, then drop.
    pub fn add(&mut self) -> (r: Result<Value, StackError>)
        requires
            old(self).wf(),
        ensures
            final(self).wf(),
            match spec_add(old(self).y, old(self).x) {
                Some(v) => r == Ok::<Value, StackError>(v) && *final(self) == spec_drop(
                    *old(self),
                    v,
                ),
                None => *final(self) == *old(self) && (r matches Err(StackError::MathError(m))
                    && m@ == "Overflow"@),
            },
    {
        let res = add_val(&self.y, &self.x);
        self.finish_binary(res)
    }

    /// Subtraction: Y - X, then drop.
    pub fn subtract(&mut self) -> (r: Result<Value, StackError>)
        requires
            old(self).wf(),
        ensures
            final(self).wf(),
            match spec_sub(old(self).y, old(self).x) {
                Some(v) => r == Ok::<Value, StackError>(v) && *final(self) == spec_drop(
                    *old(self),
                    v,
                ),
                None => *final(self) == *old(self) && (r matches Err(StackError::MathError(m))
                    && m@ == "Overflow"@),
            },
    {
        let res = sub_val(&self.y, &self.x);
        self.finish_binary(res)
    }

    /// Multiplication: Y * X, then drop.
    pub fn multiply(&mut self) -> (r: Result<Value, StackError>)
        requires
            old(self).wf(),
        ensures
            final(self).wf(),
            match spec_mul(old(self).y, old(self).x) {
                Some(v) => r == Ok::<Value, StackError>(v) && *final(self) == spec_drop(
                    *old(self),
                    v,
                ),
                None => *final(self) == *old(self) && (r matches Err(StackError::MathError(m))
                    && m@ == "Overflow"@),
            },
    {
        let res = mul_val(&self.y, &self.x);
        self.finish_binary(res)
    }

    /// Division: Y / X, then drop. Division by zero is rejected before
    /// anything moves.
    pub fn divide(&mut self) -> (r: Result<Value, StackError>)
        requires
            old(self).wf(),
        ensures
            final(self).wf(),
            old(self).x.spec_is_zero() ==> r == Err::<Value, StackError>(
                StackError::DivisionByZero,
            ) && *final(self) == *old(self),
            !old(self).x.spec_is_zero() ==> match spec_div(old(self).y, old(self).x) {
                Some(v) => r == Ok::<Value, StackError>(v) && *final(self) == spec_drop(
                    *old(self),
                    v,
                ),
                None => *final(self) == *old(self) && (r matches Err(StackError::MathError(m))
                    && m@ == "Overflow"@),
            },
    {
        if self.x.is_zero() {
            Err(StackError::DivisionByZero)
        } else {
            let res = div_val(&self.y, &self.x);
            self.finish_binary(res)
        }
    }

    /// Swap the X and Y registers.
    pub fn swap(&mut self)
        ensures
            *final(self) == (Stack { x: old(self).y, y: old(self).x, ..*old(self) }),
    {
        let tmp = self.x;
        self.x = self.y;
        self.y = tmp;
    }

    /// Clear the X register only.
    pub fn clear_x(&mut self)
        ensures
            *final(self) == (Stack { x: Value { neg: false, mant: 0, exp: 0 }, ..*old(self) }),
    {
        self.x = Value::zero();
    }

    /// Clear the entire stack and reset the lift flag.
    pub fn clear_all(&mut self)
        ensures
            final(self).x.spec_is_zero() && final(self).y.spec_is_zero(),
            final(self).z.spec_is_zero() && final(self).t.spec_is_zero(),
            !final(self).lifted,
            final(self).wf(),
    {
        self.x = Value::zero();
        self.y = Value::zero();
        self.z = Value::zero();
        self.t = Value::zero();
        self.lifted = false;
    }

    /// Negate the X register only.
    pub fn change_sign(&mut self)
        requires
            old(self).x.wf(),
        ensures
            *final(self) == (Stack { x: crate::value::spec_negate(old(self).x), ..*old(self) }),
            final(self).x.wf(),
    {
        self.x = self.x.negate();
    }
}

impl Default for Stack {
    /// The zeroed stack.
    fn default() -> (r: Stack)
        ensures
            r.wf(),
            r.x.spec_is_zero() && r.y.spec_is_zero() && r.z.spec_is_zero() && r.t.spec_is_zero(),
            !r.lifted,
    {
        Stack::new()
    }
}

/// Stack drop invariant: after any binary operation, the Z register holds
/// what T held before, and T itself is unchanged — the top register is
/// duplicated, never lost and never zeroed.
pub proof fn lemma_stack_drop_invariant(s: Stack, v: Value)
    ensures
        spec_drop(s, v).z == s.t,
        spec_drop(s, v).t == s.t,
{
}

/// Lift is not the inverse of drop: two lifts in a row discard the
/// original T entirely (no register of the result holds it), while a
/// binary operation's drop preserves T in both Z and T.
pub proof fn lemma_lift_lift_discards_t(s: Stack)
    ensures
        spec_lift(spec_lift(s)) == (Stack { x: s.x, y: s.x, z: s.x, t: s.y, lifted: s.lifted }),
        forall|v: Value| spec_drop(s, v).t == s.t,
{
}

} // verus!
