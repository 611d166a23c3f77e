//! Arithmetic expressions over registers and constants.
//!
//! An expression is the symbolic form a constraint speaks about; evaluating
//! it under an environment yields a base-field value.  An expression is
//! trace-dependent when it reads any row-local register; digests of
//! trace-independent expressions may be stored once per proof instead of per
//! row.

use crate::field::{fadd, fmul, Fp};
use crate::register::{ElementRegister, RegisterSpace};
use crate::trace::{elem_val, slice_in_env, AirParser, EnvView};
use vstd::prelude::*;

verus! {

/// A symbolic base-field expression.
#[derive(Debug)]
pub enum ArithmeticExpression {
    /// A compile-time field constant.
    Const(Fp),
    /// The value of an element register.
    Reg(ElementRegister),
    /// Sum of two expressions.
    Add(Box<ArithmeticExpression>, Box<ArithmeticExpression>),
    /// Product of two expressions.
    Mul(Box<ArithmeticExpression>, Box<ArithmeticExpression>),
}

/// Value of an expression under an environment.
pub open spec fn expr_eval(e: ArithmeticExpression, env: EnvView) -> int
    decreases e,
{
    match e {
        ArithmeticExpression::Const(c) => c@,
        ArithmeticExpression::Reg(r) => elem_val(r, env),
        ArithmeticExpression::Add(a, b) => fadd(expr_eval(*a, env), expr_eval(*b, env)),
        ArithmeticExpression::Mul(a, b) => fmul(expr_eval(*a, env), expr_eval(*b, env)),
    }
}

/// Every constant is canonical and every register lies inside the
/// environment.
pub open spec fn expr_wf(e: ArithmeticExpression, env: EnvView) -> bool
    decreases e,
{
    match e {
        ArithmeticExpression::Const(c) => c.wf(),
        ArithmeticExpression::Reg(r) => slice_in_env(r.slice, env) && r.slice.len == 1,
        ArithmeticExpression::Add(a, b) => expr_wf(*a, env) && expr_wf(*b, env),
        ArithmeticExpression::Mul(a, b) => expr_wf(*a, env) && expr_wf(*b, env),
    }
}

/// Whether the expression reads any row-local register.
pub open spec fn spec_is_trace(e: ArithmeticExpression) -> bool
    decreases e,
{
    match e {
        ArithmeticExpression::Const(_) => false,
        ArithmeticExpression::Reg(r) => r.slice.space == RegisterSpace::Trace,
        ArithmeticExpression::Add(a, b) => spec_is_trace(*a) || spec_is_trace(*b),
        ArithmeticExpression::Mul(a, b) => spec_is_trace(*a) || spec_is_trace(*b),
    }
}

impl ArithmeticExpression {
    /// The zero expression.
    pub fn zero() -> (r: ArithmeticExpression)
        ensures
            r == ArithmeticExpression::Const(Fp { v: 0 }),
    {
        ArithmeticExpression::Const(Fp::zero())
    }

    /// A constant expression.
    pub fn from_constant(c: Fp) -> (r: ArithmeticExpression)
        ensures
            r == ArithmeticExpression::Const(c),
    {
        ArithmeticExpression::Const(c)
    }

    /// Sum of two expressions.
    pub fn add(self, other: ArithmeticExpression) -> (r: ArithmeticExpression)
        ensures
            r == ArithmeticExpression::Add(Box::new(self), Box::new(other)),
    {
        ArithmeticExpression::Add(Box::new(self), Box::new(other))
    }

    /// Product of two expressions.
    pub fn mul(self, other: ArithmeticExpression) -> (r: ArithmeticExpression)
        ensures
            r == ArithmeticExpression::Mul(Box::new(self), Box::new(other)),
    {
        ArithmeticExpression::Mul(Box::new(self), Box::new(other))
    }

    /// Whether the expression reads any row-local register; decides whether
    /// a digest of it must be recomputed per row.
    pub fn is_trace(&self) -> (r: bool)
        ensures
            r == spec_is_trace(*self),
        decreases *self,
    {
        match self {
            ArithmeticExpression::Const(_) => false,
            ArithmeticExpression::Reg(r) => match r.slice.space {
                RegisterSpace::Trace => true,
                _ => false,
            },
            ArithmeticExpression::Add(a, b) => a.is_trace() || b.is_trace(),
            ArithmeticExpression::Mul(a, b) => a.is_trace() || b.is_trace(),
        }
    }

    /// Evaluates the expression under a row context.
    pub fn eval(&self, parser: &AirParser) -> (r: Fp)
        requires
            parser.wf(),
            expr_wf(*self, parser@),
        ensures
            r.wf(),
            r@ == expr_eval(*self, parser@),
        decreases *self,
    {
        match self {
            ArithmeticExpression::Const(c) => *c,
            ArithmeticExpression::Reg(reg) => parser.read_element(reg),
            ArithmeticExpression::Add(a, b) => {
                let x = a.eval(parser);
                let y = b.eval(parser);
                x.add(y)
            },
            ArithmeticExpression::Mul(a, b) => {
                let x = a.eval(parser);
                let y = b.eval(parser);
                x.mul(y)
            },
        }
    }
}

impl ElementRegister {
    /// The expression reading this register.
    pub fn expr(&self) -> (r: ArithmeticExpression)
        ensures
            r == ArithmeticExpression::Reg(*self),
    {
        ArithmeticExpression::Reg(*self)
    }
}

} // verus!
