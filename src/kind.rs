use vstd::prelude::*;

use vstd::string::*;

use crate::bignat::{decimal, from_u64, to_decimal};

verus! {

/// The three families of chains the search knows about.
#[allow(non_camel_case_types)]
#[derive(Debug, Clone, Copy, PartialEq, Eq, Structural)]
pub enum CunninghamKind {
    /// `p[i+1] = 2 p[i] + 1`
    FIRST,
    /// `p[i+1] = 2 p[i] - 1`
    SECOND,
    /// `n[i+1] = 2 n[i]`, with `n[i] - 1` and `n[i] + 1` both prime
    BITWIN,
}

/// Why a request or a search did not produce a chain.
#[derive(Debug, Clone, PartialEq, Eq)]
pub enum CunninghamError {
    /// The kind selector is not 1, 2 or 3; the message names it.
    InvalidKind(String),
    /// A bit length or a minimum length of zero.
    InvalidRequest,
    /// The ascending seeds outgrew the requested bit length.
    ChainNotFound,
    /// The search drew as many seeds as it was allowed without success.
    SeedBudgetSpent,
}

/// The kind that a numeric selector names, if any.
pub open spec fn kind_of_selector(value: u32) -> Option<CunninghamKind> {
    if value == 1 {
        Some(CunninghamKind::FIRST)
    } else if value == 2 {
        Some(CunninghamKind::SECOND)
    } else if value == 3 {
        Some(CunninghamKind::BITWIN)
    } else {
        None
    }
}

impl CunninghamKind {
    /// Maps 1, 2 and 3 to the three kinds; any other value is refused.
    pub fn from_u32(value: u32) -> (r: Result<CunninghamKind, CunninghamError>)
        ensures
            kind_of_selector(value) is Some ==> r == Ok::<CunninghamKind, CunninghamError>(
                kind_of_selector(value)->0,
            ),
            kind_of_selector(value) is None ==> (r matches Err(CunninghamError::InvalidKind(m))
                && m@ == invalid_kind_text(value)),
    {
        match value {
            1 => Ok(CunninghamKind::FIRST),
            2 => Ok(CunninghamKind::SECOND),
            3 => Ok(CunninghamKind::BITWIN),
            _ => Err(CunninghamError::InvalidKind(invalid_kind_message(value))),
        }
    }
}

/// The text that names a refused kind selector.
pub open spec fn invalid_kind_text(value: u32) -> Seq<char> {
    "Invalid kind selected. Cannot be "@ + decimal(value as nat)
}

/// The fixed prefix followed by the selector in decimal.
fn invalid_kind_message(value: u32) -> (r: String)
    ensures
        r@ == invalid_kind_text(value),
{
    let mut s = "Invalid kind selected. Cannot be ".to_owned();
    let digits = to_decimal(&from_u64(value as u64));
    s.append(digits.as_str());
    s
}

} // verus!
