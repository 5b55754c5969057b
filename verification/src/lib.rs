//! A JavaScript source-to-source rewriter for running guest code inside a
//! browser sandbox.  The rewriter takes a parsed program, collects an ordered
//! set of textual edits (wrapping references to sensitive globals, guarding
//! `location` assignments, redirecting module specifiers, and so on), and then
//! splices those edits into the original source bytes.
//!
//! Parsing itself is left to the caller: the rewriter works on the [`ast::Node`]
//! tree, whose spans are byte offsets into the source.

pub mod ast;
pub mod changes;
pub mod config;
pub mod globals;
pub mod laws;
pub mod rewrite;
pub mod splice;
pub mod text;
pub mod urls;
pub mod visitor;

pub use vstd::seq::Seq as MathSeq;

use vstd::prelude::*;

verus! {

/// A half-open byte range `[start, end)` into the source text.
#[derive(Clone, Copy, PartialEq, Eq, Structural, Debug)]
pub struct Span {
    pub start: u32,
    pub end: u32,
}

impl Span {
    pub fn new(start: u32, end: u32) -> (r: Span)
        ensures
            r.start == start,
            r.end == end,
    {
        Span { start, end }
    }
}

/// The one failure the splice pass can report: an edit whose span does not fit
/// the source, or edits that overlap a span already spliced.
#[derive(Clone, Copy, PartialEq, Eq, Structural, Debug)]
pub enum RewriterError {
    Oob,
}

} // verus!
