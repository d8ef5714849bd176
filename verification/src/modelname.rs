//! Model-name normalization: a raw model identifier is folded into one of
//! the family buckets `Opus`, `Sonnet` and `Haiku` by case-insensitive
//! substring match, checked in that fixed priority order; an empty name
//! becomes `Unknown`, and any other unrecognized name passes through
//! verbatim.

use crate::chars::{contains_ci, str_contains_ci};
use vstd::prelude::*;

verus! {

/// The normalized bucket name for a raw model identifier.
pub open spec fn simplify_model_spec(m: Seq<char>) -> Seq<char> {
    if contains_ci(m, "opus"@) {
        "Opus"@
    } else if contains_ci(m, "sonnet"@) {
        "Sonnet"@
    } else if contains_ci(m, "haiku"@) {
        "Haiku"@
    } else if m.len() == 0 {
        "Unknown"@
    } else {
        m
    }
}

/// Folds a raw model identifier into its normalized bucket name.
pub fn simplify_model(model: &str) -> (r: String)
    ensures
        r@ == simplify_model_spec(model@),
{
    if str_contains_ci(model, "opus") {
        String::from_str("Opus")
    } else if str_contains_ci(model, "sonnet") {
        String::from_str("Sonnet")
    } else if str_contains_ci(model, "haiku") {
        String::from_str("Haiku")
    } else if model.unicode_len() == 0 {
        String::from_str("Unknown")
    } else {
        String::from_str(model)
    }
}

} // verus!
