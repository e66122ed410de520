use pyexpression::{Binary64, Complex, Fold, Kind, NumOp, NumericError, Numerical};

fn bits(x: f64) -> Binary64 {
    Binary64 { bits: x.to_bits() }
}

#[test]
fn test_negation_int() {
    let num_int = Numerical::Int(10);
    assert_eq!(num_int.neg(), Ok(Numerical::Int(-10)));

    let num_int_neg = Numerical::Int(-10);
    assert_eq!(num_int_neg.neg(), Ok(Numerical::Int(10)));
}

#[test]
fn test_negation_float() {
    let num_float = Numerical::Float(bits(5.5));
    assert_eq!(num_float.neg(), Ok(Numerical::Float(bits(-5.5))));

    let num_float_neg = Numerical::Float(bits(-5.5));
    assert_eq!(num_float_neg.neg(), Ok(Numerical::Float(bits(5.5))));
}

#[test]
fn test_negation_complex() {
    let num_complex = Numerical::Complex(Complex { re: bits(3.0), im: bits(4.0) });
    assert_eq!(
        num_complex.neg(),
        Ok(Numerical::Complex(Complex { re: bits(-3.0), im: bits(-4.0) }))
    );

    let num_complex_neg = Numerical::Complex(Complex { re: bits(-3.0), im: bits(-4.0) });
    assert_eq!(
        num_complex_neg.neg(),
        Ok(Numerical::Complex(Complex { re: bits(3.0), im: bits(4.0) }))
    );
}

#[test]
fn test_numerical_binary_ops_int_to_int() {
    let n1 = Numerical::Int(5);
    let n2 = Numerical::Int(10);
    assert_eq!(n1.fold(NumOp::Add, n2), Fold::Value(Numerical::Int(15)));
    assert_eq!(n1.fold(NumOp::Sub, n2), Fold::Value(Numerical::Int(-5)));
    assert_eq!(n1.fold(NumOp::Mul, n2), Fold::Value(Numerical::Int(50)));
    assert_eq!(n1.fold(NumOp::Div, n2), Fold::Value(Numerical::Int(0))); // integer division
}

#[test]
fn constructors_hold_their_payload() {
    assert_eq!(Numerical::integer(-4), Numerical::Int(-4));
    assert_eq!(Numerical::float(bits(2.5)), Numerical::Float(bits(2.5)));
    assert_eq!(
        Numerical::complex(bits(1.0), bits(-2.0)),
        Numerical::Complex(Complex { re: bits(1.0), im: bits(-2.0) })
    );
}

#[test]
fn integer_division_truncates_toward_zero() {
    let div = |a: i64, b: i64| Numerical::Int(a).fold(NumOp::Div, Numerical::Int(b));
    assert_eq!(div(7, 2), Fold::Value(Numerical::Int(3)));
    assert_eq!(div(-7, 2), Fold::Value(Numerical::Int(-3)));
    assert_eq!(div(7, -2), Fold::Value(Numerical::Int(-3)));
    assert_eq!(div(-7, -2), Fold::Value(Numerical::Int(3)));
}

#[test]
fn integer_division_by_zero_fails() {
    assert_eq!(
        Numerical::Int(7).fold(NumOp::Div, Numerical::Int(0)),
        Fold::Error(NumericError::DivisionByZero)
    );
    assert_eq!(
        Numerical::Int(0).fold(NumOp::Div, Numerical::Int(0)),
        Fold::Error(NumericError::DivisionByZero)
    );
}

#[test]
fn integer_zero_to_a_negative_power_fails() {
    let zero = Numerical::Int(0);
    assert_eq!(
        zero.fold(NumOp::Pow, Numerical::Int(-1)),
        Fold::Error(NumericError::DivisionByZero)
    );
    assert_eq!(
        zero.fold(NumOp::Pow, Numerical::Int(i64::MIN)),
        Fold::Error(NumericError::DivisionByZero)
    );
    assert_eq!(zero.fold(NumOp::Pow, Numerical::Int(0)), Fold::Binary64);
    assert_eq!(zero.fold(NumOp::Pow, Numerical::Int(3)), Fold::Binary64);
    assert_eq!(Numerical::Int(2).fold(NumOp::Pow, Numerical::Int(-1)), Fold::Binary64);
    assert_eq!(zero.fold(NumOp::Pow, Numerical::Float(bits(-1.0))), Fold::Binary64);
}

#[test]
fn integer_overflow_fails() {
    let max = Numerical::Int(i64::MAX);
    let min = Numerical::Int(i64::MIN);
    assert_eq!(max.fold(NumOp::Add, Numerical::Int(1)), Fold::Error(NumericError::Overflow));
    assert_eq!(min.fold(NumOp::Sub, Numerical::Int(1)), Fold::Error(NumericError::Overflow));
    assert_eq!(max.fold(NumOp::Mul, Numerical::Int(2)), Fold::Error(NumericError::Overflow));
    assert_eq!(min.fold(NumOp::Div, Numerical::Int(-1)), Fold::Error(NumericError::Overflow));
    assert_eq!(min.neg(), Err(NumericError::Overflow));
    assert_eq!(max.fold(NumOp::Add, Numerical::Int(0)), Fold::Value(max));
    assert_eq!(max.neg(), Ok(Numerical::Int(-i64::MAX)));
}

#[test]
fn negation_flips_only_the_sign_bit() {
    assert_eq!(Numerical::Float(bits(0.0)).neg(), Ok(Numerical::Float(bits(-0.0))));
    assert_eq!(
        Numerical::Float(bits(f64::INFINITY)).neg(),
        Ok(Numerical::Float(bits(f64::NEG_INFINITY)))
    );
    assert_eq!(bits(1.25).neg(), bits(-1.25));
}

#[test]
fn binary64_folds_are_left_to_the_caller() {
    let i = Numerical::Int(2);
    let f = Numerical::Float(bits(2.0));
    let c = Numerical::Complex(Complex { re: bits(1.0), im: bits(1.0) });
    assert_eq!(i.fold(NumOp::Pow, i), Fold::Binary64);
    assert_eq!(i.fold(NumOp::Add, f), Fold::Binary64);
    assert_eq!(f.fold(NumOp::Add, i), Fold::Binary64);
    assert_eq!(f.fold(NumOp::Div, c), Fold::Binary64);
    assert_eq!(c.fold(NumOp::Mul, c), Fold::Binary64);
}

#[test]
fn promotion_takes_the_higher_kind_in_either_order() {
    let kinds = [Kind::Int, Kind::Float, Kind::Complex];
    for (i, a) in kinds.iter().enumerate() {
        for (j, b) in kinds.iter().enumerate() {
            let higher = kinds[i.max(j)];
            assert_eq!(a.join(*b), higher);
            assert_eq!(b.join(*a), higher);
        }
    }
    assert_eq!(Numerical::Int(1).kind(), Kind::Int);
    assert_eq!(Numerical::Float(bits(1.0)).kind(), Kind::Float);
    assert_eq!(
        Numerical::Complex(Complex { re: bits(1.0), im: bits(0.0) }).kind(),
        Kind::Complex
    );
}
