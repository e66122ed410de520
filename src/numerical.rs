use vstd::prelude::*;

verus! {

/// Bit 63 of a binary64 pattern: the sign.
pub const SIGN_BIT: u64 = 0x8000_0000_0000_0000;

/// An IEEE-754 binary64 number, held by its bit pattern. Two of them are equal
/// when their bit patterns are.
#[derive(Clone, Copy, Debug, PartialEq, Eq, Structural)]
pub struct Binary64 {
    pub bits: u64,
}

impl Binary64 {
    /// The same number with its sign bit flipped, which is binary64 negation
    /// (it applies to zeros, infinities and NaNs alike).
    pub open spec fn negated(self) -> Binary64 {
        Binary64 { bits: self.bits ^ SIGN_BIT }
    }

    pub fn neg(self) -> (r: Binary64)
        ensures
            r == self.negated(),
    {
        Binary64 { bits: self.bits ^ SIGN_BIT }
    }
}

/// A complex number with binary64 parts.
#[derive(Clone, Copy, Debug, PartialEq, Eq, Structural)]
pub struct Complex {
    pub re: Binary64,
    pub im: Binary64,
}

/// The kinds of number, ordered int < float < complex.
#[derive(Clone, Copy, Debug, PartialEq, Eq, Structural)]
pub enum Kind {
    Int,
    Float,
    Complex,
}

impl Kind {
    /// Position of the kind in the order int < float < complex.
    pub open spec fn rank(self) -> nat {
        match self {
            Kind::Int => 0,
            Kind::Float => 1,
            Kind::Complex => 2,
        }
    }

    /// The higher of two kinds: the kind that both operands of a mixed
    /// operation are lifted to.
    pub open spec fn spec_join(self, other: Kind) -> Kind {
        if self.rank() >= other.rank() {
            self
        } else {
            other
        }
    }

    #[verifier::when_used_as_spec(spec_join)]
    pub fn join(self, other: Kind) -> (r: Kind)
        ensures
            r == self.spec_join(other),
    {
        match (self, other) {
            (Kind::Complex, _) | (_, Kind::Complex) => Kind::Complex,
            (Kind::Float, _) | (_, Kind::Float) => Kind::Float,
            _ => Kind::Int,
        }
    }
}

/// A numeric literal: a 64-bit signed integer, a binary64 float or a complex
/// number with binary64 parts.
#[derive(Clone, Copy, Debug, PartialEq, Eq, Structural)]
pub enum Numerical {
    Int(i64),
    Float(Binary64),
    Complex(Complex),
}

/// Why an integer operation has no result.
#[derive(Clone, Copy, Debug, PartialEq, Eq, Structural)]
pub enum NumericError {
    /// Division of an integer by the integer zero, or the integer zero raised
    /// to a negative integer power (which would divide by zero).
    DivisionByZero,
    /// The exact integer result lies outside the 64-bit signed range.
    Overflow,
}

/// The binary numeric operations.
#[derive(Clone, Copy, Debug, PartialEq, Eq, Structural)]
pub enum NumOp {
    Add,
    Sub,
    Mul,
    Div,
    Pow,
}

/// Outcome of folding two numeric literals.
#[derive(Clone, Copy, Debug, PartialEq, Eq, Structural)]
pub enum Fold {
    /// The result, computed exactly on 64-bit integers.
    Value(Numerical),
    /// The integer operation has no result.
    Error(NumericError),
    /// The operation is carried out in binary64 arithmetic: a float or complex
    /// operand is involved, or it is a power (powers of integers go through
    /// binary64 and are truncated back). The integer zero raised to a negative
    /// integer is no such power: it fails with `DivisionByZero` instead.
    Binary64,
}

/// The integer `v` as a literal, or `Overflow` where it does not fit in 64 bits.
pub open spec fn int_result(v: int) -> Fold {
    if i64::MIN <= v <= i64::MAX {
        Fold::Value(Numerical::Int(v as i64))
    } else {
        Fold::Error(NumericError::Overflow)
    }
}

/// Quotient of `a` by a nonzero `b`, rounded toward zero.
pub open spec fn trunc_div(a: int, b: int) -> int {
    let q = (if a < 0 { -a } else { a }) / (if b < 0 { -b } else { b });
    if (a < 0) == (b < 0) {
        q
    } else {
        -q
    }
}

/// Folding `op` over two literals. Integers add, subtract and multiply
/// exactly and divide truncating toward zero; dividing by zero, or raising
/// zero to a negative power, fails with `DivisionByZero`. Every other power,
/// and every operation with a float or complex operand, needs binary64
/// arithmetic.
pub open spec fn fold_spec(op: NumOp, x: Numerical, y: Numerical) -> Fold {
    match (x, y) {
        (Numerical::Int(a), Numerical::Int(b)) => match op {
            NumOp::Add => int_result(a + b),
            NumOp::Sub => int_result(a - b),
            NumOp::Mul => int_result(a * b),
            NumOp::Div => if b == 0 {
                Fold::Error(NumericError::DivisionByZero)
            } else {
                int_result(trunc_div(a as int, b as int))
            },
            NumOp::Pow => if a == 0 && b < 0 {
                Fold::Error(NumericError::DivisionByZero)
            } else {
                Fold::Binary64
            },
        },
        _ => Fold::Binary64,
    }
}

/// Negation of a literal: every component changes sign. The integer
/// `i64::MIN` has no negation in 64 bits.
pub open spec fn negation(x: Numerical) -> Result<Numerical, NumericError> {
    match x {
        Numerical::Int(i) => if i == i64::MIN {
            Err(NumericError::Overflow)
        } else {
            Ok(Numerical::Int(-i as i64))
        },
        Numerical::Float(f) => Ok(Numerical::Float(f.negated())),
        Numerical::Complex(c) => Ok(
            Numerical::Complex(Complex { re: c.re.negated(), im: c.im.negated() }),
        ),
    }
}

/// Combining numbers of two kinds yields the higher kind, whichever side holds
/// it: the join of two kinds is symmetric and is the larger of them in the
/// order int < float < complex. A fold that integer arithmetic carries out
/// yields an integer; one of mixed kinds always goes to binary64 arithmetic,
/// whose literal a pending construction only accepts in the joined kind.
pub proof fn lemma_promotion(op: NumOp, x: Numerical, y: Numerical)
    ensures
        x.kind().join(y.kind()) == y.kind().join(x.kind()),
        x.kind().join(y.kind()) == x.kind() || x.kind().join(y.kind()) == y.kind(),
        x.kind().join(y.kind()).rank() >= x.kind().rank(),
        x.kind().join(y.kind()).rank() >= y.kind().rank(),
        fold_spec(op, x, y) matches Fold::Value(n) ==> n.kind() == x.kind().join(y.kind()),
        x.kind() != y.kind() ==> fold_spec(op, x, y) == Fold::Binary64 && fold_spec(op, y, x)
            == Fold::Binary64,
{
}

impl Numerical {
    pub fn integer(value: i64) -> (r: Numerical)
        ensures
            r == Numerical::Int(value),
    {
        Numerical::Int(value)
    }

    pub fn float(value: Binary64) -> (r: Numerical)
        ensures
            r == Numerical::Float(value),
    {
        Numerical::Float(value)
    }

    pub fn complex(re: Binary64, im: Binary64) -> (r: Numerical)
        ensures
            r == Numerical::Complex(Complex { re, im }),
    {
        Numerical::Complex(Complex { re, im })
    }

    pub open spec fn spec_kind(&self) -> Kind {
        match self {
            Numerical::Int(_) => Kind::Int,
            Numerical::Float(_) => Kind::Float,
            Numerical::Complex(_) => Kind::Complex,
        }
    }

    #[verifier::when_used_as_spec(spec_kind)]
    pub fn kind(&self) -> (r: Kind)
        ensures
            r == self.spec_kind(),
    {
        match self {
            Numerical::Int(_) => Kind::Int,
            Numerical::Float(_) => Kind::Float,
            Numerical::Complex(_) => Kind::Complex,
        }
    }

    pub fn neg(self) -> (r: Result<Numerical, NumericError>)
        ensures
            r == negation(self),
    {
        match self {
            Numerical::Int(i) => if i == i64::MIN {
                Err(NumericError::Overflow)
            } else {
                Ok(Numerical::Int(-i))
            },
            Numerical::Float(f) => Ok(Numerical::Float(f.neg())),
            Numerical::Complex(c) => Ok(
                Numerical::Complex(Complex { re: c.re.neg(), im: c.im.neg() }),
            ),
        }
    }

    /// Folds `op` over `self` and `rhs` where 64-bit integer arithmetic can.
    pub fn fold(self, op: NumOp, rhs: Numerical) -> (r: Fold)
        ensures
            r == fold_spec(op, self, rhs),
    {
        match (self, rhs) {
            (Numerical::Int(a), Numerical::Int(b)) => {
                let exact = match op {
                    NumOp::Add => a.checked_add(b),
                    NumOp::Sub => a.checked_sub(b),
                    NumOp::Mul => a.checked_mul(b),
                    NumOp::Div => {
                        if b == 0 {
                            return Fold::Error(NumericError::DivisionByZero);
                        }
                        a.checked_div(b)
                    },
                    NumOp::Pow => {
                        if a == 0 && b < 0 {
                            return Fold::Error(NumericError::DivisionByZero);
                        }
                        return Fold::Binary64;
                    },
                };
                match exact {
                    Some(v) => Fold::Value(Numerical::Int(v)),
                    None => Fold::Error(NumericError::Overflow),
                }
            },
            _ => Fold::Binary64,
        }
    }
}

} // verus!
