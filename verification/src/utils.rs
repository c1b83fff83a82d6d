//! Settings read from text.

use crate::text::{decimal_up_to, parse_decimal};
use vstd::prelude::*;

verus! {

/// The setting that `value` gives: the number that it writes in decimal, where
/// it is there and writes one that is at most `limit`; `default` in every
/// other case.
pub open spec fn setting(value: Option<Seq<char>>, default: u64, limit: u64) -> u64 {
    match value {
        Some(text) => match decimal_up_to(text, limit as nat) {
            Some(n) => n as u64,
            None => default,
        },
        None => default,
    }
}

/// Reads a setting: `value` is what the environment holds for it, `None` where
/// it holds nothing. A value that is no number, or one above `limit`, counts as
/// none.
pub fn get_env_or_default(value: Option<&str>, default: u64, limit: u64) -> (result: u64)
    ensures
        result == setting(
            match value {
                Some(text) => Some(text@),
                None => None,
            },
            default,
            limit,
        ),
{
    match value {
        Some(text) => match parse_decimal(text, limit) {
            Some(n) => n,
            None => default,
        },
        None => default,
    }
}

} // verus!
