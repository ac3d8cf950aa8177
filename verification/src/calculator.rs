//! Four-function integer calculator.

use vstd::prelude::*;

verus! {

/// The arithmetic operation a caller asks for.
#[derive(Debug, Clone, Copy, PartialEq, Eq, Structural)]
pub enum Operation {
    Add,
    Subtract,
    Multiply,
    Divide,
}

/// Absolute value of an integer.
pub open spec fn magnitude(x: int) -> int {
    if x < 0 {
        -x
    } else {
        x
    }
}

/// Quotient of `a` by `b` rounded toward zero: the quotient of the magnitudes,
/// negative exactly when the operands differ in sign.
pub open spec fn truncated_quotient(a: int, b: int) -> int
    recommends
        b != 0,
{
    if (a < 0) == (b < 0) {
        magnitude(a) / magnitude(b)
    } else {
        -(magnitude(a) / magnitude(b))
    }
}

/// Negating the divisor of a floor-and-remainder division negates the quotient.
proof fn lemma_quotient_of_negated_divisor(a: int, b: int)
    requires
        b != 0,
    ensures
        a / (-b) == -(a / b),
{
    assert(a / (-b) == -(a / b)) by (nonlinear_arith)
        requires
            b != 0,
    ;
}

/// A non-negative dividend bounds the quotient of the magnitudes.
proof fn lemma_quotient_bounds(a: int, b: int)
    requires
        a >= 0,
        b > 0,
    ensures
        0 <= a / b <= a,
{
    assert(0 <= a / b <= a) by (nonlinear_arith)
        requires
            a >= 0,
            b > 0,
    ;
}

/// The exact mathematical value of `a <operation> b`; division rounds toward
/// zero and is meaningful only for a non-zero divisor.
pub open spec fn exact_value(a: int, b: int, operation: Operation) -> int {
    match operation {
        Operation::Add => a + b,
        Operation::Subtract => a - b,
        Operation::Multiply => a * b,
        Operation::Divide => truncated_quotient(a, b),
    }
}

/// Whether the operation is a division by zero, the one request that is
/// rejected.
pub open spec fn divides_by_zero(b: int, operation: Operation) -> bool {
    operation == Operation::Divide && b == 0
}

/// Whether the request can be answered with a 32-bit result: either it is
/// rejected as a division by zero, or its exact value fits in `i32`.
pub open spec fn representable(a: int, b: int, operation: Operation) -> bool {
    divides_by_zero(b, operation) || i32::MIN <= exact_value(a, b, operation) <= i32::MAX
}

/// Message returned when asked to divide by zero.
pub open spec fn divide_by_zero_message() -> Seq<char> {
    "Cannot divide by zero"@
}

/// The largest quotient magnitude, `2^31`, arises only from dividing the
/// smallest 32-bit integer by a unit.
proof fn lemma_quotient_fits(a: int, b: int)
    requires
        i32::MIN <= a <= i32::MAX,
        i32::MIN <= b <= i32::MAX,
        b != 0,
    ensures
        (i32::MIN <= truncated_quotient(a, b) <= i32::MAX) <==> !(a == i32::MIN && b == -1),
{
    lemma_quotient_bounds(magnitude(a), magnitude(b));
    if a == i32::MIN && b == -1 {
        assert(magnitude(a) / 1 == magnitude(a));
    } else if a == i32::MIN {
        if b == 1 {
            assert(magnitude(a) / 1 == magnitude(a));
        } else {
            assert(magnitude(a) / magnitude(b) < magnitude(a)) by (nonlinear_arith)
                requires
                    magnitude(a) > 0,
                    magnitude(b) >= 2,
            ;
        }
    }
}

/// Decides whether a request can be answered with a 32-bit result.
pub fn is_representable(a: i32, b: i32, operation: Operation) -> (fits: bool)
    ensures
        fits == representable(a as int, b as int, operation),
{
    let wide_a: i64 = a as i64;
    let wide_b: i64 = b as i64;
    let low: i64 = i32::MIN as i64;
    let high: i64 = i32::MAX as i64;
    match operation {
        Operation::Add => low <= wide_a + wide_b && wide_a + wide_b <= high,
        Operation::Subtract => low <= wide_a - wide_b && wide_a - wide_b <= high,
        Operation::Multiply => {
            assert(-0x8000_0000 * 0x8000_0000 <= wide_a * wide_b <= 0x8000_0000 * 0x8000_0000)
                by (nonlinear_arith)
                requires
                    -0x8000_0000 <= wide_a <= 0x8000_0000,
                    -0x8000_0000 <= wide_b <= 0x8000_0000,
            ;
            low <= wide_a * wide_b && wide_a * wide_b <= high
        },
        Operation::Divide => {
            proof {
                if b != 0 {
                    lemma_quotient_fits(a as int, b as int);
                }
            }
            b == 0 || !(a == i32::MIN && b == -1)
        },
    }
}

/// Applies `operation` to `a` and `b`.
///
/// Division by zero is rejected with the message `"Cannot divide by zero"`;
/// every other request yields the exact result.
pub fn perform_calculation(a: i32, b: i32, operation: Operation) -> (result: Result<i32, String>)
    requires
        representable(a as int, b as int, operation),
    ensures
        match result {
            Ok(value) => !divides_by_zero(b as int, operation) && value == exact_value(
                a as int,
                b as int,
                operation,
            ),
            Err(message) => divides_by_zero(b as int, operation) && message@
                == divide_by_zero_message(),
        },
{
    match operation {
        Operation::Add => Ok(a + b),
        Operation::Subtract => Ok(a - b),
        Operation::Multiply => Ok(a * b),
        Operation::Divide => {
            if b == 0 {
                Err("Cannot divide by zero".to_string())
            } else {
                proof {
                    lemma_quotient_of_negated_divisor(magnitude(a as int), b as int);
                    lemma_quotient_bounds(magnitude(a as int), magnitude(b as int));
                }
                Ok(a / b)
            }
        },
    }
}

} // verus!
