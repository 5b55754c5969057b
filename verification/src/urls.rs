//! Module-specifier rewriting: resolution against the base URL (done by the
//! `url` crate behind a trusted wrapper), caller-supplied encoding, and the
//! quoted replacement literal.

use vstd::prelude::*;
use crate::config::Config;
use crate::text::{lit, push_bytes, push_str_bytes, str_bytes};

verus! {

/// What standard URL resolution yields for a specifier against a base, as
/// serialized bytes: `None` when the pair does not resolve.  The result is a
/// function of the two strings alone.
pub uninterp spec fn resolve_of(base: Seq<u8>, spec_str: Seq<u8>) -> Option<Seq<u8>>;

/// Relies on `url::Url::parse` and `url::Url::join`: resolving a specifier
/// against an absolute base URL and serializing the result depends on the two
/// strings alone.  Returns `None` when either the base does not parse or the
/// specifier does not resolve against it.
#[verifier::external_body]
fn resolve_url_bytes(base: &Vec<u8>, spec_str: &Vec<u8>) -> (r: Option<Vec<u8>>)
    ensures
        r is Some <==> resolve_of(base@, spec_str@) is Some,
        r is Some ==> r.unwrap()@ == resolve_of(base@, spec_str@).unwrap(),
{
    let base = core::str::from_utf8(base.as_slice()).ok()?;
    let spec_str = core::str::from_utf8(spec_str.as_slice()).ok()?;
    let joined = url::Url::parse(base).ok()?.join(spec_str).ok()?;
    Some(joined.to_string().into_bytes())
}

/// The URL-encoding step applied to every resolved specifier.  The encoding
/// is chosen by the embedder; an implementation states what it computes
/// through `encode_spec`, and `encode` is held to that statement.
pub trait UrlEncoder {
    /// What this encoder returns on the given bytes.
    spec fn encode_spec(&self, s: Seq<u8>) -> Seq<u8>;

    /// Encode a resolved URL.
    fn encode(&self, s: &Vec<u8>) -> (r: Vec<u8>)
        ensures
            r@ == self.encode_spec(s@),
    ;
}

/// The identity encoding: the resolved URL is used as it is.
pub struct IdentityEncoder {
}

impl UrlEncoder for IdentityEncoder {
    open spec fn encode_spec(&self, s: Seq<u8>) -> Seq<u8> {
        s
    }

    fn encode(&self, s: &Vec<u8>) -> (r: Vec<u8>) {
        let mut out: Vec<u8> = Vec::new();
        push_bytes(&mut out, s);
        proof {
            assert(out@ =~= s@);
        }
        out
    }
}

/// The replacement text for a module specifier: the double-quoted
/// concatenation of the prefix and the encoded resolved URL, or `None` when
/// the specifier does not resolve (the specifier is then left unchanged).
pub open spec fn url_text<E: UrlEncoder>(
    cfg: Config,
    enc: E,
    base: Seq<u8>,
    spec_str: Seq<u8>,
) -> Option<Seq<u8>> {
    match resolve_of(base, spec_str) {
        Some(resolved) => Some(
            lit("\"") + str_bytes(cfg.prefix) + enc.encode_spec(resolved) + lit("\""),
        ),
        None => None,
    }
}

/// Resolve and encode one module specifier, yielding the quoted replacement
/// literal.
pub fn rewrite_url<E: UrlEncoder>(cfg: &Config, enc: &E, base: &Vec<u8>, spec_str: &Vec<u8>) -> (r:
    Option<Vec<u8>>)
    ensures
        r is Some <==> url_text(*cfg, *enc, base@, spec_str@) is Some,
        r is Some ==> r.unwrap()@ == url_text(*cfg, *enc, base@, spec_str@).unwrap(),
{
    match resolve_url_bytes(base, spec_str) {
        Some(resolved) => {
            let mut out: Vec<u8> = Vec::new();
            push_str_bytes(&mut out, "\"");
            push_str_bytes(&mut out, cfg.prefix.as_str());
            let encoded = enc.encode(&resolved);
            push_bytes(&mut out, &encoded);
            push_str_bytes(&mut out, "\"");
            proof {
                assert(out@ =~= lit("\"") + str_bytes(cfg.prefix) + enc.encode_spec(resolved@)
                    + lit("\""));
            }
            Some(out)
        },
        None => None,
    }
}

} // verus!
