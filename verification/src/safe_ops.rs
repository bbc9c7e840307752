//! Size arithmetic that reports overflow instead of wrapping.

use vstd::prelude::*;

verus! {

/// Why a size computation failed.
#[derive(Debug, Clone, Copy, PartialEq, Eq, Structural)]
pub enum ArithmeticError {
    /// The sum does not fit in a `u64`.
    Overflow,
    /// The value does not fit in a `u64`.
    ConversionOverflow,
}

impl ArithmeticError {
    /// The text that describes this error.
    pub fn message(&self) -> (r: &'static str)
        ensures
            *self == ArithmeticError::Overflow ==> r@ == "Integer overflow in size calculation"@,
            *self == ArithmeticError::ConversionOverflow ==> r@ == "Size conversion overflow"@,
    {
        match self {
            ArithmeticError::Overflow => "Integer overflow in size calculation",
            ArithmeticError::ConversionOverflow => "Size conversion overflow",
        }
    }
}

/// Adds two sizes, failing instead of overflowing.
pub fn safe_add_u64(a: u64, b: u64) -> (r: Result<u64, ArithmeticError>)
    ensures
        a + b <= u64::MAX ==> r == Ok::<u64, ArithmeticError>((a + b) as u64),
        a + b > u64::MAX ==> r == Err::<u64, ArithmeticError>(ArithmeticError::Overflow),
{
    match a.checked_add(b) {
        Some(s) => Ok(s),
        None => Err(ArithmeticError::Overflow),
    }
}

/// Converts a `usize` to a `u64`; on every supported platform this succeeds.
pub fn safe_cast_usize_to_u64(value: usize) -> (r: Result<u64, ArithmeticError>)
    ensures
        r == Ok::<u64, ArithmeticError>(value as u64),
{
    Ok(value as u64)
}

} // verus!
