//! Per-rewrite configuration: the runtime shim names and the policy flags.

use vstd::prelude::*;

verus! {

/// Configuration injected once per rewrite and treated as immutable.
///
/// The `*fn` fields are the identifiers of the runtime shim the emitted code
/// calls into; `prefix` is prepended to every encoded URL.
pub struct Config {
    pub prefix: String,
    pub wrapfn: String,
    pub wrapthisfn: String,
    pub importfn: String,
    pub rewritefn: String,
    pub setrealmfn: String,
    pub metafn: String,
    pub pushsourcemapfn: String,
    pub capture_errors: bool,
    pub scramitize: bool,
    pub do_sourcemaps: bool,
    pub strict_rewrites: bool,
}

} // verus!
