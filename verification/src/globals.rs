//! The closed set of identifier names the rewriter treats as sensitive:
//! guest code must not obtain a direct reference to any of them.

use vstd::prelude::*;
use crate::text::{bytes_eq_str, lit};

verus! {

/// True when `n` spells one of the sensitive global names.
pub open spec fn is_unsafe_global(n: Seq<u8>) -> bool {
    ||| n == lit("window")
    ||| n == lit("self")
    ||| n == lit("globalThis")
    ||| n == lit("this")
    ||| n == lit("parent")
    ||| n == lit("top")
    ||| n == lit("location")
    ||| n == lit("document")
    ||| n == lit("eval")
    ||| n == lit("frames")
}

/// Decide membership in the sensitive-global set.
pub fn check_unsafe_global(name: &Vec<u8>) -> (r: bool)
    ensures
        r == is_unsafe_global(name@),
{
    bytes_eq_str(name, "window") || bytes_eq_str(name, "self") || bytes_eq_str(name, "globalThis")
        || bytes_eq_str(name, "this") || bytes_eq_str(name, "parent") || bytes_eq_str(name, "top")
        || bytes_eq_str(name, "location") || bytes_eq_str(name, "document") || bytes_eq_str(
        name,
        "eval",
    ) || bytes_eq_str(name, "frames")
}

} // verus!
