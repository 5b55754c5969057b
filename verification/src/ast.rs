//! The syntax tree the rewriter walks.
//!
//! Only the node kinds the rewriting policy distinguishes are modelled; every
//! other construct appears as [`Node::Other`], which carries its walkable
//! children.  Spans are byte offsets into the source the tree was parsed from;
//! identifier and string-literal payloads are the raw source bytes.

use vstd::prelude::*;
use vstd::string::StringSliceAdditionalSpecFns;
use crate::Span;

verus! {

/// An assignment operator, as written in source.
#[derive(Clone, Copy, PartialEq, Eq, Structural, Debug)]
pub enum AssignOp {
    Assign,
    AddAssign,
    SubAssign,
    MulAssign,
    DivAssign,
    RemAssign,
    ExpAssign,
    ShlAssign,
    ShrAssign,
    UshrAssign,
    BitAndAssign,
    BitOrAssign,
    BitXorAssign,
    LogicalAndAssign,
    LogicalOrAssign,
    NullishAssign,
}

impl AssignOp {
    /// The operator's source spelling.
    pub fn as_str(self) -> (r: &'static str)
        ensures
            r.spec_bytes() == op_bytes(self),
    {
        match self {
            AssignOp::Assign => "=",
            AssignOp::AddAssign => "+=",
            AssignOp::SubAssign => "-=",
            AssignOp::MulAssign => "*=",
            AssignOp::DivAssign => "/=",
            AssignOp::RemAssign => "%=",
            AssignOp::ExpAssign => "**=",
            AssignOp::ShlAssign => "<<=",
            AssignOp::ShrAssign => ">>=",
            AssignOp::UshrAssign => ">>>=",
            AssignOp::BitAndAssign => "&=",
            AssignOp::BitOrAssign => "|=",
            AssignOp::BitXorAssign => "^=",
            AssignOp::LogicalAndAssign => "&&=",
            AssignOp::LogicalOrAssign => "||=",
            AssignOp::NullishAssign => "??=",
        }
    }
}

/// The source spelling of an assignment operator, as bytes.
pub open spec fn op_bytes(op: AssignOp) -> Seq<u8> {
    match op {
        AssignOp::Assign => crate::text::lit("="),
        AssignOp::AddAssign => crate::text::lit("+="),
        AssignOp::SubAssign => crate::text::lit("-="),
        AssignOp::MulAssign => crate::text::lit("*="),
        AssignOp::DivAssign => crate::text::lit("/="),
        AssignOp::RemAssign => crate::text::lit("%="),
        AssignOp::ExpAssign => crate::text::lit("**="),
        AssignOp::ShlAssign => crate::text::lit("<<="),
        AssignOp::ShrAssign => crate::text::lit(">>="),
        AssignOp::UshrAssign => crate::text::lit(">>>="),
        AssignOp::BitAndAssign => crate::text::lit("&="),
        AssignOp::BitOrAssign => crate::text::lit("|="),
        AssignOp::BitXorAssign => crate::text::lit("^="),
        AssignOp::LogicalAndAssign => crate::text::lit("&&="),
        AssignOp::LogicalOrAssign => crate::text::lit("||="),
        AssignOp::NullishAssign => crate::text::lit("??="),
    }
}

/// A string literal that names a module specifier: its raw value and the span
/// of the whole literal, quotes included.
pub struct SourceLit {
    pub value: Vec<u8>,
    pub span: Span,
}

/// The binding of a `catch` clause: the parameter name when it is a plain
/// identifier, and the span of the catch block (braces included).
pub struct CatchInfo {
    pub param: Option<Vec<u8>>,
    pub body_span: Span,
}

/// The target of an assignment expression.
pub enum AssignTarget {
    /// A bare identifier.
    Ident { name: Vec<u8>, span: Span },
    /// An array destructuring pattern; the rewriter leaves these alone.
    ArrayPat { span: Span },
    /// Any other target (member expressions and the like), with its walkable
    /// children.
    Target { children: Vec<Node>, span: Span },
}

/// One property of an object literal.
pub enum ObjProp {
    /// A key/value property.  `key` holds the computed-key expression when
    /// there is one (a static identifier or literal key is not walked, so the
    /// vector is empty or a single expression); `shorthand` marks `{ x }`
    /// written without a value.
    Property { key: Vec<Node>, value: Box<Node>, shorthand: bool },
    /// A spread property `{ ...e }`.
    Spread { argument: Box<Node> },
}

/// A node of the walked tree.  Every variant carries the span of the full
/// construct; kinds the policy does not inspect are folded into `Other`.
#[allow(inconsistent_fields)]
pub enum Node {
    /// A reference to an identifier (not a binding or a property name).
    Ident { name: Vec<u8>, span: Span },
    /// A `this` expression.
    This { span: Span },
    /// A `super` expression.
    SuperExpr { span: Span },
    /// A `debugger` statement.
    Debugger { span: Span },
    /// A static member access `object.property`.
    StaticMember { object: Box<Node>, property: Vec<u8>, property_span: Span, span: Span },
    /// A computed member access `object[property]`.
    ComputedMember { object: Box<Node>, property: Box<Node>, span: Span },
    /// A call, with `optional` marking `callee?.(…)`.
    Call { callee: Box<Node>, args: Vec<Node>, optional: bool, span: Span },
    /// A `new` expression.
    NewExpr { callee: Box<Node>, args: Vec<Node>, span: Span },
    /// A unary `typeof`.
    TypeofExpr { argument: Box<Node>, span: Span },
    /// An update expression `x++` / `--x`; never descended into.
    UpdateExpr { span: Span },
    /// An assignment expression.
    AssignExpr { target: AssignTarget, op: AssignOp, right: Box<Node>, span: Span },
    /// An object literal.
    ObjectExpr { properties: Vec<ObjProp>, span: Span },
    /// The body of a function, with the span starting at its opening brace.
    FunctionBody { children: Vec<Node>, span: Span },
    /// An import declaration with its specifier literal.
    ImportDecl { source: SourceLit, children: Vec<Node>, span: Span },
    /// A dynamic `import(…)` expression.
    ImportExpr { children: Vec<Node>, span: Span },
    /// `export * from "…"`.
    ExportAll { source: SourceLit, span: Span },
    /// An export-named declaration; `source` is present for re-exports.
    /// The rewriter never descends into these.
    ExportNamed { source: Option<SourceLit>, span: Span },
    /// `import.meta`.
    ImportMeta { span: Span },
    /// Any other meta property (`new.target`).
    MetaOther { span: Span },
    /// A `for (… in …)` statement; only the body is walked.
    ForIn { body: Box<Node>, span: Span },
    /// A `for (… of …)` statement; only the body is walked.
    ForOf { body: Box<Node>, span: Span },
    /// A `try` statement, with its catch binding when one exists.
    TryStmt { catch: Option<CatchInfo>, children: Vec<Node>, span: Span },
    /// Every construct the policy does not inspect, with its children.
    Other { children: Vec<Node>, span: Span },
}

impl Node {
    /// The span of the full construct.
    pub open spec fn span_of(self) -> Span {
        match self {
            Node::Ident { span, .. } => span,
            Node::This { span } => span,
            Node::SuperExpr { span } => span,
            Node::Debugger { span } => span,
            Node::StaticMember { span, .. } => span,
            Node::ComputedMember { span, .. } => span,
            Node::Call { span, .. } => span,
            Node::NewExpr { span, .. } => span,
            Node::TypeofExpr { span, .. } => span,
            Node::UpdateExpr { span } => span,
            Node::AssignExpr { span, .. } => span,
            Node::ObjectExpr { span, .. } => span,
            Node::FunctionBody { span, .. } => span,
            Node::ImportDecl { span, .. } => span,
            Node::ImportExpr { span, .. } => span,
            Node::ExportAll { span, .. } => span,
            Node::ExportNamed { span, .. } => span,
            Node::ImportMeta { span } => span,
            Node::MetaOther { span } => span,
            Node::ForIn { span, .. } => span,
            Node::ForOf { span, .. } => span,
            Node::TryStmt { span, .. } => span,
            Node::Other { span, .. } => span,
        }
    }

    /// The span of the full construct (executable form).
    pub fn span(&self) -> (r: Span)
        ensures
            r == self.span_of(),
    {
        match self {
            Node::Ident { span, .. } => *span,
            Node::This { span } => *span,
            Node::SuperExpr { span } => *span,
            Node::Debugger { span } => *span,
            Node::StaticMember { span, .. } => *span,
            Node::ComputedMember { span, .. } => *span,
            Node::Call { span, .. } => *span,
            Node::NewExpr { span, .. } => *span,
            Node::TypeofExpr { span, .. } => *span,
            Node::UpdateExpr { span } => *span,
            Node::AssignExpr { span, .. } => *span,
            Node::ObjectExpr { span, .. } => *span,
            Node::FunctionBody { span, .. } => *span,
            Node::ImportDecl { span, .. } => *span,
            Node::ImportExpr { span, .. } => *span,
            Node::ExportAll { span, .. } => *span,
            Node::ExportNamed { span, .. } => *span,
            Node::ImportMeta { span } => *span,
            Node::MetaOther { span } => *span,
            Node::ForIn { span, .. } => *span,
            Node::ForOf { span, .. } => *span,
            Node::TryStmt { span, .. } => *span,
            Node::Other { span, .. } => *span,
        }
    }
}

} // verus!
