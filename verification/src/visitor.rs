//! The visitor: one read-only walk over the tree that decides, per node kind,
//! which edits to emit.  [`changes_of`] is the policy itself, stated as a
//! function from a node to the sequence of edits the walk emits in traversal
//! order; the executable walk is proved to produce exactly that sequence.

use vstd::prelude::*;
use crate::Span;
use crate::ast::{AssignTarget, CatchInfo, Node, ObjProp, SourceLit};
use crate::changes::{views, ChangeV, JsChange};
use crate::config::Config;
use crate::globals::{check_unsafe_global, is_unsafe_global};
use crate::text::{bytes_eq_str, lit, push_bytes, push_str_bytes, str_bytes};
use crate::urls::{rewrite_url, url_text, UrlEncoder};

verus! {

broadcast use vstd::std_specs::vec::group_vec_axioms;

/// The wrap emitted around a sensitive identifier: `(wrapfn(name))`.
pub open spec fn wrap_text(cfg: Config, name: Seq<u8>) -> Seq<u8> {
    lit("(") + str_bytes(cfg.wrapfn) + lit("(") + name + lit("))")
}

/// The edit for one identifier reference: sensitive names are wrapped, all
/// others left alone.
pub open spec fn ident_changes(name: Seq<u8>, span: Span, cfg: Config) -> Seq<ChangeV> {
    if is_unsafe_global(name) {
        seq![ChangeV::Replace { span, text: wrap_text(cfg, name) }]
    } else {
        seq![]
    }
}

/// A direct eval: a non-optional call whose callee is the bare identifier
/// `eval`, with at least one byte (the opening parenthesis) between callee
/// and call end.
pub open spec fn is_direct_eval(callee: Node, optional: bool, span: Span) -> bool {
    &&& !optional
    &&& callee matches Node::Ident { name, span: cspan } && name@ == lit("eval") && cspan.end
        < span.end
}

/// A member-access object that is safe to leave unexplored when the property
/// is harmless: a bare identifier that is not itself sensitive.
pub open spec fn safe_cull_object(n: Node) -> bool {
    n matches Node::Ident { name, .. } && !is_unsafe_global(name@)
}

/// `import.meta`, `new.target` or `super`: objects never wrapped by the
/// instrumentation flag.
pub open spec fn is_meta_or_super(n: Node) -> bool {
    ||| n matches Node::ImportMeta { .. }
    ||| n matches Node::MetaOther { .. }
    ||| n matches Node::SuperExpr { .. }
}

/// An object-literal property that is a shorthand whose value identifier is
/// sensitive.
pub open spec fn is_sh_unsafe(p: ObjProp) -> bool {
    &&& p matches ObjProp::Property { key, value, shorthand }
    &&& shorthand
    &&& *value matches Node::Ident { name, .. }
    &&& is_unsafe_global((p->Property_value)->Ident_name@)
}

/// The expansion of a sensitive shorthand property: `name: (wrapfn(name))`
/// over the span of the value identifier.
pub open spec fn sh_change(p: ObjProp, cfg: Config) -> ChangeV {
    let value = p->Property_value;
    let name = value->Ident_name;
    ChangeV::Replace {
        span: value.span_of(),
        text: name@ + lit(": ") + wrap_text(cfg, name@),
    }
}

/// Scan an object literal's properties in order for the first sensitive
/// shorthand; the walk stops at the first hit.
pub open spec fn obj_scan(props: Seq<ObjProp>, cfg: Config) -> Option<ChangeV>
    decreases props,
{
    if props.len() == 0 {
        None
    } else if is_sh_unsafe(props[0]) {
        Some(sh_change(props[0], cfg))
    } else {
        obj_scan(props.drop_first(), cfg)
    }
}

/// The edit replacing a module specifier, when it resolves.
pub open spec fn url_change<E: UrlEncoder>(
    cfg: Config,
    enc: E,
    base: Seq<u8>,
    source: SourceLit,
) -> Seq<ChangeV> {
    match url_text(cfg, enc, base, source.value@) {
        Some(t) => seq![ChangeV::Replace { span: source.span, text: t }],
        None => seq![],
    }
}

/// The `$scramerr` probe inserted after the opening brace of a catch block.
pub open spec fn catch_changes(catch: Option<CatchInfo>, cfg: Config) -> Seq<ChangeV> {
    match catch {
        Some(ci) => if cfg.capture_errors && ci.param is Some && ci.body_span.start
            < ci.body_span.end {
            seq![
                ChangeV::Replace {
                    span: Span { start: (ci.body_span.start + 1) as u32, end: (ci.body_span.start
                        + 1) as u32 },
                    text: lit("$scramerr(") + ci.param.unwrap()@ + lit(");"),
                },
            ]
        } else {
            seq![]
        },
        None => seq![],
    }
}

/// The edits the walk emits for one node, in traversal order.
pub open spec fn changes_of<E: UrlEncoder>(n: Node, cfg: Config, enc: E, base: Seq<u8>) -> Seq<
    ChangeV,
>
    decreases n,
{
    match n {
        Node::Ident { name, span } => ident_changes(name@, span, cfg),
        Node::This { span } => seq![
            ChangeV::Replace {
                span,
                text: lit("(") + str_bytes(cfg.wrapthisfn) + lit("(this))"),
            },
        ],
        Node::SuperExpr { .. } => seq![],
        Node::Debugger { span } => seq![ChangeV::Replace { span, text: Seq::empty() }],
        Node::StaticMember { object, property, property_span, span } => {
            if property@ == lit("postMessage") {
                seq![
                    ChangeV::Replace {
                        span: property_span,
                        text: str_bytes(cfg.setrealmfn) + lit("({}).") + property@,
                    },
                ] + changes_of(*object, cfg, enc, base)
            } else if !cfg.strict_rewrites && !is_unsafe_global(property@) && safe_cull_object(
                *object,
            ) {
                seq![]
            } else if cfg.scramitize && !is_meta_or_super(*object) {
                let os = object.span_of();
                seq![
                    ChangeV::Replace {
                        span: Span { start: os.start, end: os.start },
                        text: lit(" $scramitize("),
                    },
                    ChangeV::Replace { span: Span { start: os.end, end: os.end }, text: lit(")") },
                ] + changes_of(*object, cfg, enc, base)
            } else {
                changes_of(*object, cfg, enc, base)
            }
        },
        Node::ComputedMember { object, property, span } => {
            changes_of(*object, cfg, enc, base) + changes_of(*property, cfg, enc, base)
        },
        Node::Call { callee, args, optional, span } => {
            if is_direct_eval(*callee, optional, span) {
                let cs = callee.span_of();
                seq![
                    ChangeV::Replace {
                        span: Span { start: cs.start, end: (cs.end + 1) as u32 },
                        text: lit("eval(") + str_bytes(cfg.rewritefn) + lit("("),
                    },
                    ChangeV::Replace { span: Span { start: span.end, end: span.end }, text: lit(
                        ")",
                    ) },
                ] + changes_of_seq(args@, cfg, enc, base)
            } else if cfg.scramitize {
                seq![
                    ChangeV::Replace {
                        span: Span { start: span.start, end: span.start },
                        text: lit(" $scramitize("),
                    },
                    ChangeV::Replace { span: Span { start: span.end, end: span.end }, text: lit(
                        ")",
                    ) },
                ] + changes_of(*callee, cfg, enc, base) + changes_of_seq(args@, cfg, enc, base)
            } else {
                changes_of(*callee, cfg, enc, base) + changes_of_seq(args@, cfg, enc, base)
            }
        },
        Node::NewExpr { callee, args, span } => {
            member_chain_changes(*callee, cfg) + changes_of_seq(args@, cfg, enc, base)
        },
        Node::TypeofExpr { .. } => seq![],
        Node::UpdateExpr { .. } => seq![],
        Node::AssignExpr { target, op, right, span } => match target {
            AssignTarget::Ident { name, span: tspan } => {
                if name@ == lit("location") {
                    seq![
                        ChangeV::Assign {
                            name: name@,
                            entirespan: span,
                            rhsspan: right.span_of(),
                            op,
                        },
                    ]
                } else {
                    changes_of(*right, cfg, enc, base)
                }
            },
            AssignTarget::ArrayPat { .. } => seq![],
            AssignTarget::Target { children, .. } => {
                changes_of_seq(children@, cfg, enc, base) + changes_of(*right, cfg, enc, base)
            },
        },
        Node::ObjectExpr { properties, span } => match obj_scan(properties@, cfg) {
            Some(c) => seq![c],
            None => changes_of_props(properties@, cfg, enc, base),
        },
        Node::FunctionBody { children, span } => {
            (if cfg.do_sourcemaps {
                seq![ChangeV::Tag { tagstart: span.start }]
            } else {
                seq![]
            }) + changes_of_seq(children@, cfg, enc, base)
        },
        Node::ImportDecl { source, children, span } => {
            url_change(cfg, enc, base, source) + changes_of_seq(children@, cfg, enc, base)
        },
        Node::ImportExpr { children, span } => {
            (if span.start + 6 <= span.end {
                seq![
                    ChangeV::Replace {
                        span: Span { start: span.start, end: (span.start + 6) as u32 },
                        text: lit("(") + str_bytes(cfg.importfn) + lit("(\"") + base + lit("\"))"),
                    },
                ]
            } else {
                seq![]
            }) + changes_of_seq(children@, cfg, enc, base)
        },
        Node::ExportAll { source, span } => url_change(cfg, enc, base, source),
        Node::ExportNamed { source, span } => match source {
            Some(s) => url_change(cfg, enc, base, s),
            None => seq![],
        },
        Node::ImportMeta { span } => seq![
            ChangeV::Replace {
                span,
                text: str_bytes(cfg.metafn) + lit("(\"") + base + lit("\")"),
            },
        ],
        Node::MetaOther { .. } => seq![],
        Node::ForIn { body, span } => changes_of(*body, cfg, enc, base),
        Node::ForOf { body, span } => changes_of(*body, cfg, enc, base),
        Node::TryStmt { catch, children, span } => {
            catch_changes(catch, cfg) + changes_of_seq(children@, cfg, enc, base)
        },
        Node::Other { children, span } => changes_of_seq(children@, cfg, enc, base),
    }
}

/// The edits of a sequence of children, in order.
pub open spec fn changes_of_seq<E: UrlEncoder>(
    s: Seq<Node>,
    cfg: Config,
    enc: E,
    base: Seq<u8>,
) -> Seq<ChangeV>
    decreases s,
{
    if s.len() == 0 {
        Seq::empty()
    } else {
        changes_of(s[0], cfg, enc, base) + changes_of_seq(s.drop_first(), cfg, enc, base)
    }
}

/// The edits of an object literal's properties when no sensitive shorthand
/// stopped the walk.
pub open spec fn changes_of_props<E: UrlEncoder>(
    s: Seq<ObjProp>,
    cfg: Config,
    enc: E,
    base: Seq<u8>,
) -> Seq<ChangeV>
    decreases s,
{
    if s.len() == 0 {
        Seq::empty()
    } else {
        changes_of_prop(s[0], cfg, enc, base) + changes_of_props(s.drop_first(), cfg, enc, base)
    }
}

/// The edits of one object-literal property.
pub open spec fn changes_of_prop<E: UrlEncoder>(
    p: ObjProp,
    cfg: Config,
    enc: E,
    base: Seq<u8>,
) -> Seq<ChangeV>
    decreases p,
{
    match p {
        ObjProp::Property { key, value, shorthand } => {
            changes_of_seq(key@, cfg, enc, base) + changes_of(*value, cfg, enc, base)
        },
        ObjProp::Spread { argument } => changes_of(*argument, cfg, enc, base),
    }
}

/// The identifier rewrites along the callee chain of a `new` expression:
/// only the leaf identifier of a member chain is inspected.
pub open spec fn member_chain_changes(n: Node, cfg: Config) -> Seq<ChangeV>
    decreases n,
{
    match n {
        Node::Ident { name, span } => ident_changes(name@, span, cfg),
        Node::StaticMember { object, .. } => member_chain_changes(*object, cfg),
        Node::ComputedMember { object, .. } => member_chain_changes(*object, cfg),
        _ => seq![],
    }
}

/// Emit the wrap for one identifier reference, when its name is sensitive.
fn visit_ident(out: &mut Vec<JsChange>, name: &Vec<u8>, span: Span, cfg: &Config)
    ensures
        views(final(out)@) == views(old(out)@) + ident_changes(name@, span, *cfg),
{
    if check_unsafe_global(name) {
        let mut text: Vec<u8> = Vec::new();
        push_str_bytes(&mut text, "(");
        push_str_bytes(&mut text, cfg.wrapfn.as_str());
        push_str_bytes(&mut text, "(");
        push_bytes(&mut text, name);
        push_str_bytes(&mut text, "))");
        proof {
            assert(text@ =~= wrap_text(*cfg, name@));
        }
        out.push(JsChange::GenericChange { span, text });
        proof {
            assert(views(out@) =~= views(old(out)@) + ident_changes(name@, span, *cfg));
        }
    } else {
        proof {
            assert(views(out@) =~= views(old(out)@) + ident_changes(name@, span, *cfg));
        }
    }
}

/// Decide whether a property is a sensitive shorthand.
fn is_sh_unsafe_exec(p: &ObjProp) -> (r: bool)
    ensures
        r == is_sh_unsafe(*p),
{
    match p {
        ObjProp::Property { key, value, shorthand } => {
            if *shorthand {
                match &**value {
                    Node::Ident { name, .. } => check_unsafe_global(name),
                    _ => false,
                }
            } else {
                false
            }
        },
        ObjProp::Spread { .. } => false,
    }
}

/// A scan that has passed only non-matching properties has not decided yet.
proof fn lemma_obj_scan_skip(props: Seq<ObjProp>, cfg: Config, i: int)
    requires
        0 <= i <= props.len(),
        forall|k: int| 0 <= k < i ==> !is_sh_unsafe(#[trigger] props[k]),
    ensures
        obj_scan(props, cfg) == obj_scan(props.skip(i), cfg),
    decreases i,
{
    if i > 0 {
        lemma_obj_scan_skip(props, cfg, i - 1);
        let s = props.skip(i - 1);
        assert(s.len() > 0);
        assert(s[0] == props[i - 1]);
        assert(!is_sh_unsafe(s[0]));
        assert(s.drop_first() =~= props.skip(i));
        assert(obj_scan(s, cfg) == obj_scan(s.drop_first(), cfg));
    } else {
        assert(props.skip(0) =~= props);
    }
}

/// Walk one node, appending the edits [`changes_of`] prescribes for it.
pub fn visit_node<E: UrlEncoder>(
    out: &mut Vec<JsChange>,
    n: &Node,
    cfg: &Config,
    enc: &E,
    base: &Vec<u8>,
)
    ensures
        views(final(out)@) == views(old(out)@) + changes_of(*n, *cfg, *enc, base@),
    decreases *n, 1int,
{
    match n {
        Node::Ident { name, span } => {
            visit_ident(out, name, *span, cfg);
        },
        Node::This { span } => {
            let mut text: Vec<u8> = Vec::new();
            push_str_bytes(&mut text, "(");
            push_str_bytes(&mut text, cfg.wrapthisfn.as_str());
            push_str_bytes(&mut text, "(this))");
            proof {
                assert(text@ =~= lit("(") + str_bytes(cfg.wrapthisfn) + lit("(this))"));
            }
            out.push(JsChange::GenericChange { span: *span, text });
            proof {
                assert(views(out@) =~= views(old(out)@) + changes_of(*n, *cfg, *enc, base@));
            }
        },
        Node::SuperExpr { .. } => {
            proof {
                assert(views(out@) =~= views(old(out)@) + changes_of(*n, *cfg, *enc, base@));
            }
        },
        Node::Debugger { span } => {
            let text: Vec<u8> = Vec::new();
            out.push(JsChange::GenericChange { span: *span, text });
            proof {
                assert(views(out@) =~= views(old(out)@) + changes_of(*n, *cfg, *enc, base@));
            }
        },
        Node::StaticMember { object, property, property_span, span } => {
            visit_static_member(out, n, cfg, enc, base);
        },
        Node::ComputedMember { object, property, span } => {
            proof {
                assert(decreases_to!(*n => n->ComputedMember_object));
                assert(n->ComputedMember_object == **object);
                assert(decreases_to!(*n => n->ComputedMember_property));
                assert(n->ComputedMember_property == **property);
            }
            visit_node(out, &**object, cfg, enc, base);
            visit_node(out, &**property, cfg, enc, base);
            proof {
                assert(views(out@) =~= views(old(out)@) + changes_of(*n, *cfg, *enc, base@));
            }
        },
        Node::Call { .. } => {
            visit_call(out, n, cfg, enc, base);
        },
        Node::NewExpr { callee, args, span } => {
            proof {
                assert(decreases_to!(*n => n->NewExpr_callee));
                assert(n->NewExpr_callee == **callee);
                assert(decreases_to!(*n => n->NewExpr_args));
                assert(n->NewExpr_args == *args);
                assert(decreases_to!(*args => args@));
                assert(decreases_to!(*n => args@));
            }
            visit_member_chain(out, &**callee, cfg);
            visit_seq(out, args, cfg, enc, base);
            proof {
                assert(views(out@) =~= views(old(out)@) + changes_of(*n, *cfg, *enc, base@));
            }
        },
        Node::TypeofExpr { .. } => {
            proof {
                assert(views(out@) =~= views(old(out)@) + changes_of(*n, *cfg, *enc, base@));
            }
        },
        Node::UpdateExpr { .. } => {
            proof {
                assert(views(out@) =~= views(old(out)@) + changes_of(*n, *cfg, *enc, base@));
            }
        },
        Node::AssignExpr { .. } => {
            visit_assign(out, n, cfg, enc, base);
        },
        Node::ObjectExpr { .. } => {
            visit_object(out, n, cfg, enc, base);
        },
        Node::FunctionBody { children, span } => {
            if cfg.do_sourcemaps {
                out.push(JsChange::SourceTag { tagstart: span.start });
            }
            proof {
                assert(decreases_to!(*n => n->FunctionBody_children));
                assert(n->FunctionBody_children == *children);
                assert(decreases_to!(*children => children@));
                assert(decreases_to!(*n => children@));
            }
            visit_seq(out, children, cfg, enc, base);
            proof {
                assert(views(out@) =~= views(old(out)@) + changes_of(*n, *cfg, *enc, base@));
            }
        },
        Node::ImportDecl { source, children, span } => {
            match rewrite_url(cfg, enc, base, &source.value) {
                Some(text) => {
                    out.push(JsChange::GenericChange { span: source.span, text });
                },
                None => {},
            }
            proof {
                assert(views(out@) =~= views(old(out)@) + url_change(*cfg, *enc, base@, n->ImportDecl_source));
                assert(decreases_to!(*n => n->ImportDecl_children));
                assert(n->ImportDecl_children == *children);
                assert(decreases_to!(*children => children@));
                assert(decreases_to!(*n => children@));
            }
            visit_seq(out, children, cfg, enc, base);
            proof {
                assert(views(out@) =~= views(old(out)@) + changes_of(*n, *cfg, *enc, base@));
            }
        },
        Node::ImportExpr { children, span } => {
            if span.end >= 6 && span.start <= span.end - 6 {
                let mut text: Vec<u8> = Vec::new();
                push_str_bytes(&mut text, "(");
                push_str_bytes(&mut text, cfg.importfn.as_str());
                push_str_bytes(&mut text, "(\"");
                push_bytes(&mut text, base);
                push_str_bytes(&mut text, "\"))");
                proof {
                    assert(text@ =~= lit("(") + str_bytes(cfg.importfn) + lit("(\"") + base@ + lit(
                        "\"))",
                    ));
                }
                out.push(
                    JsChange::GenericChange {
                        span: Span { start: span.start, end: span.start + 6 },
                        text,
                    },
                );
            }
            proof {
                assert(decreases_to!(*n => n->ImportExpr_children));
                assert(n->ImportExpr_children == *children);
                assert(decreases_to!(*children => children@));
                assert(decreases_to!(*n => children@));
            }
            visit_seq(out, children, cfg, enc, base);
            proof {
                assert(views(out@) =~= views(old(out)@) + changes_of(*n, *cfg, *enc, base@));
            }
        },
        Node::ExportAll { source, span } => {
            match rewrite_url(cfg, enc, base, &source.value) {
                Some(text) => {
                    out.push(JsChange::GenericChange { span: source.span, text });
                },
                None => {},
            }
            proof {
                assert(views(out@) =~= views(old(out)@) + changes_of(*n, *cfg, *enc, base@));
            }
        },
        Node::ExportNamed { source, span } => {
            match source {
                Some(s) => {
                    match rewrite_url(cfg, enc, base, &s.value) {
                        Some(text) => {
                            out.push(JsChange::GenericChange { span: s.span, text });
                        },
                        None => {},
                    }
                },
                None => {},
            }
            proof {
                assert(views(out@) =~= views(old(out)@) + changes_of(*n, *cfg, *enc, base@));
            }
        },
        Node::ImportMeta { span } => {
            let mut text: Vec<u8> = Vec::new();
            push_str_bytes(&mut text, cfg.metafn.as_str());
            push_str_bytes(&mut text, "(\"");
            push_bytes(&mut text, base);
            push_str_bytes(&mut text, "\")");
            proof {
                assert(text@ =~= str_bytes(cfg.metafn) + lit("(\"") + base@ + lit("\")"));
            }
            out.push(JsChange::GenericChange { span: *span, text });
            proof {
                assert(views(out@) =~= views(old(out)@) + changes_of(*n, *cfg, *enc, base@));
            }
        },
        Node::MetaOther { .. } => {
            proof {
                assert(views(out@) =~= views(old(out)@) + changes_of(*n, *cfg, *enc, base@));
            }
        },
        Node::ForIn { body, span } => {
            proof {
                assert(decreases_to!(*n => n->ForIn_body));
                assert(n->ForIn_body == **body);
            }
            visit_node(out, &**body, cfg, enc, base);
        },
        Node::ForOf { body, span } => {
            proof {
                assert(decreases_to!(*n => n->ForOf_body));
                assert(n->ForOf_body == **body);
            }
            visit_node(out, &**body, cfg, enc, base);
        },
        Node::TryStmt { catch, children, span } => {
            visit_try(out, n, cfg, enc, base);
        },
        Node::Other { children, span } => {
            proof {
                assert(decreases_to!(*n => n->Other_children));
                assert(n->Other_children == *children);
                assert(decreases_to!(*children => children@));
                assert(decreases_to!(*n => children@));
            }
            visit_seq(out, children, cfg, enc, base);
        },
    }
}

/// Walk a static member access.
fn visit_static_member<E: UrlEncoder>(
    out: &mut Vec<JsChange>,
    n: &Node,
    cfg: &Config,
    enc: &E,
    base: &Vec<u8>,
)
    requires
        *n is StaticMember,
    ensures
        views(final(out)@) == views(old(out)@) + changes_of(*n, *cfg, *enc, base@),
    decreases *n, 0int,
{
    match n {
        Node::StaticMember { object, property, property_span, span } => {
            proof {
                assert(decreases_to!(*n => n->StaticMember_object));
                assert(n->StaticMember_object == **object);
            }
            if bytes_eq_str(property, "postMessage") {
                let mut text: Vec<u8> = Vec::new();
                push_str_bytes(&mut text, cfg.setrealmfn.as_str());
                push_str_bytes(&mut text, "({}).");
                push_bytes(&mut text, property);
                proof {
                    assert(text@ =~= str_bytes(cfg.setrealmfn) + lit("({}).") + property@);
                }
                out.push(JsChange::GenericChange { span: *property_span, text });
                visit_node(out, &**object, cfg, enc, base);
                proof {
                    assert(views(out@) =~= views(old(out)@) + changes_of(*n, *cfg, *enc, base@));
                }
                return ;
            }
            let mut culled = false;
            if !cfg.strict_rewrites && !check_unsafe_global(property) {
                match &**object {
                    Node::Ident { name, .. } => {
                        if !check_unsafe_global(name) {
                            culled = true;
                        }
                    },
                    _ => {},
                }
            }
            proof {
                assert(culled == (!cfg.strict_rewrites && !is_unsafe_global(property@)
                    && safe_cull_object(**object)));
            }
            if culled {
                proof {
                    assert(views(out@) =~= views(old(out)@) + changes_of(*n, *cfg, *enc, base@));
                }
                return ;
            }
            let meta_or_super = match &**object {
                Node::ImportMeta { .. } => true,
                Node::MetaOther { .. } => true,
                Node::SuperExpr { .. } => true,
                _ => false,
            };
            if cfg.scramitize && !meta_or_super {
                let os = object.span();
                let mut t1: Vec<u8> = Vec::new();
                push_str_bytes(&mut t1, " $scramitize(");
                out.push(
                    JsChange::GenericChange { span: Span { start: os.start, end: os.start }, text: t1 },
                );
                let mut t2: Vec<u8> = Vec::new();
                push_str_bytes(&mut t2, ")");
                out.push(
                    JsChange::GenericChange { span: Span { start: os.end, end: os.end }, text: t2 },
                );
            }
            visit_node(out, &**object, cfg, enc, base);
            proof {
                assert(views(out@) =~= views(old(out)@) + changes_of(*n, *cfg, *enc, base@));
            }
        },
        _ => {
            proof {
                assert(false);
            }
        },
    }
}

/// Walk a call expression, keeping a direct `eval` direct.
fn visit_call<E: UrlEncoder>(
    out: &mut Vec<JsChange>,
    n: &Node,
    cfg: &Config,
    enc: &E,
    base: &Vec<u8>,
)
    requires
        *n is Call,
    ensures
        views(final(out)@) == views(old(out)@) + changes_of(*n, *cfg, *enc, base@),
    decreases *n, 0int,
{
    match n {
        Node::Call { callee, args, optional, span } => {
            proof {
                assert(decreases_to!(*n => n->Call_callee));
                assert(n->Call_callee == **callee);
                assert(decreases_to!(*n => n->Call_args));
                assert(n->Call_args == *args);
                assert(decreases_to!(*args => args@));
                assert(decreases_to!(*n => args@));
            }
            let mut direct = false;
            let mut cstart: u32 = 0;
            let mut cend: u32 = 0;
            if !*optional {
                match &**callee {
                    Node::Ident { name, span: cspan } => {
                        if bytes_eq_str(name, "eval") && cspan.end < span.end {
                            direct = true;
                            cstart = cspan.start;
                            cend = cspan.end;
                        }
                    },
                    _ => {},
                }
            }
            proof {
                assert(direct == is_direct_eval(**callee, *optional, *span));
            }
            if direct {
                proof {
                    assert(cstart == callee.span_of().start && cend == callee.span_of().end);
                }
                let mut t1: Vec<u8> = Vec::new();
                push_str_bytes(&mut t1, "eval(");
                push_str_bytes(&mut t1, cfg.rewritefn.as_str());
                push_str_bytes(&mut t1, "(");
                proof {
                    assert(t1@ =~= lit("eval(") + str_bytes(cfg.rewritefn) + lit("("));
                }
                out.push(
                    JsChange::GenericChange { span: Span { start: cstart, end: cend + 1 }, text: t1 },
                );
                let mut t2: Vec<u8> = Vec::new();
                push_str_bytes(&mut t2, ")");
                out.push(
                    JsChange::GenericChange { span: Span { start: span.end, end: span.end }, text: t2 },
                );
                visit_seq(out, args, cfg, enc, base);
                proof {
                    assert(views(out@) =~= views(old(out)@) + changes_of(*n, *cfg, *enc, base@));
                }
                return ;
            }
            if cfg.scramitize {
                let mut t1: Vec<u8> = Vec::new();
                push_str_bytes(&mut t1, " $scramitize(");
                out.push(
                    JsChange::GenericChange {
                        span: Span { start: span.start, end: span.start },
                        text: t1,
                    },
                );
                let mut t2: Vec<u8> = Vec::new();
                push_str_bytes(&mut t2, ")");
                out.push(
                    JsChange::GenericChange { span: Span { start: span.end, end: span.end }, text: t2 },
                );
            }
            visit_node(out, &**callee, cfg, enc, base);
            visit_seq(out, args, cfg, enc, base);
            proof {
                assert(views(out@) =~= views(old(out)@) + changes_of(*n, *cfg, *enc, base@));
            }
        },
        _ => {
            proof {
                assert(false);
            }
        },
    }
}

/// Walk an assignment expression, guarding assignments to `location`.
fn visit_assign<E: UrlEncoder>(
    out: &mut Vec<JsChange>,
    n: &Node,
    cfg: &Config,
    enc: &E,
    base: &Vec<u8>,
)
    requires
        *n is AssignExpr,
    ensures
        views(final(out)@) == views(old(out)@) + changes_of(*n, *cfg, *enc, base@),
    decreases *n, 0int,
{
    match n {
        Node::AssignExpr { target, op, right, span } => {
            proof {
                assert(decreases_to!(*n => n->AssignExpr_right));
                assert(n->AssignExpr_right == **right);
                assert(decreases_to!(*n => n->AssignExpr_target));
                assert(n->AssignExpr_target == *target);
            }
            match target {
                AssignTarget::Ident { name, span: tspan } => {
                    if bytes_eq_str(name, "location") {
                        let rspan = right.span();
                        out.push(
                            JsChange::Assignment {
                                name: crate::text::clone_bytes(name),
                                entirespan: *span,
                                rhsspan: rspan,
                                op: *op,
                            },
                        );
                        proof {
                            assert(views(out@) =~= views(old(out)@) + changes_of(
                                *n,
                                *cfg,
                                *enc,
                                base@,
                            ));
                        }
                    } else {
                        visit_node(out, &**right, cfg, enc, base);
                    }
                },
                AssignTarget::ArrayPat { .. } => {
                    proof {
                        assert(views(out@) =~= views(old(out)@) + changes_of(*n, *cfg, *enc, base@));
                    }
                },
                AssignTarget::Target { children, span: tspan } => {
                    proof {
                        assert(decreases_to!(*target => target->Target_children));
                        assert(target->Target_children == *children);
                        assert(decreases_to!(*children => children@));
                        assert(decreases_to!(*n => children@));
                    }
                    visit_seq(out, children, cfg, enc, base);
                    visit_node(out, &**right, cfg, enc, base);
                    proof {
                        assert(views(out@) =~= views(old(out)@) + changes_of(*n, *cfg, *enc, base@));
                    }
                },
            }
        },
        _ => {
            proof {
                assert(false);
            }
        },
    }
}

/// Walk an object literal: expand the first sensitive shorthand and stop, or
/// walk every property.
fn visit_object<E: UrlEncoder>(
    out: &mut Vec<JsChange>,
    n: &Node,
    cfg: &Config,
    enc: &E,
    base: &Vec<u8>,
)
    requires
        *n is ObjectExpr,
    ensures
        views(final(out)@) == views(old(out)@) + changes_of(*n, *cfg, *enc, base@),
    decreases *n, 0int,
{
    match n {
        Node::ObjectExpr { properties, span } => {
            proof {
                assert(decreases_to!(*n => n->ObjectExpr_properties));
                assert(n->ObjectExpr_properties == *properties);
                assert(decreases_to!(*properties => properties@));
                assert(decreases_to!(*n => properties@));
            }
            let plen: usize = properties.len();
            let mut i: usize = 0;
            let mut found = false;
            while i < plen && !found
                invariant
                    0 <= i <= plen,
                    plen == properties@.len(),
                    found ==> i < plen && is_sh_unsafe(properties@[i as int]),
                    forall|k: int| 0 <= k < i ==> !is_sh_unsafe(#[trigger] properties@[k]),
                decreases plen - i, (if found { 0int } else { 1int }),
            {
                if is_sh_unsafe_exec(&properties[i]) {
                    found = true;
                } else {
                    i = i + 1;
                }
            }
            if found {
                proof {
                    lemma_obj_scan_skip(properties@, *cfg, i as int);
                    let s = properties@.skip(i as int);
                    assert(s[0] == properties@[i as int]);
                    assert(obj_scan(properties@, *cfg) == Some(
                        sh_change(properties@[i as int], *cfg),
                    ));
                }
                match &properties[i] {
                    ObjProp::Property { key, value, shorthand } => {
                        match &**value {
                            Node::Ident { name, span: vspan } => {
                                let mut text: Vec<u8> = Vec::new();
                                push_bytes(&mut text, name);
                                push_str_bytes(&mut text, ": ");
                                push_str_bytes(&mut text, "(");
                                push_str_bytes(&mut text, cfg.wrapfn.as_str());
                                push_str_bytes(&mut text, "(");
                                push_bytes(&mut text, name);
                                push_str_bytes(&mut text, "))");
                                proof {
                                    assert(text@ =~= name@ + lit(": ") + wrap_text(*cfg, name@));
                                }
                                out.push(JsChange::GenericChange { span: *vspan, text });
                                proof {
                                    assert(views(out@) =~= views(old(out)@) + changes_of(
                                        *n,
                                        *cfg,
                                        *enc,
                                        base@,
                                    ));
                                }
                            },
                            _ => {
                                proof {
                                    assert(false);
                                }
                            },
                        }
                    },
                    _ => {
                        proof {
                            assert(false);
                        }
                    },
                }
            } else {
                proof {
                    lemma_obj_scan_skip(properties@, *cfg, plen as int);
                    assert(properties@.skip(plen as int) =~= Seq::<ObjProp>::empty());
                    assert(obj_scan(properties@, *cfg) is None);
                }
                visit_props(out, properties, cfg, enc, base);
                proof {
                    assert(views(out@) =~= views(old(out)@) + changes_of(*n, *cfg, *enc, base@));
                }
            }
        },
        _ => {
            proof {
                assert(false);
            }
        },
    }
}

/// Walk a `try` statement, inserting the error probe into its catch block.
fn visit_try<E: UrlEncoder>(
    out: &mut Vec<JsChange>,
    n: &Node,
    cfg: &Config,
    enc: &E,
    base: &Vec<u8>,
)
    requires
        *n is TryStmt,
    ensures
        views(final(out)@) == views(old(out)@) + changes_of(*n, *cfg, *enc, base@),
    decreases *n, 0int,
{
    match n {
        Node::TryStmt { catch, children, span } => {
            match catch {
                Some(ci) => {
                    if cfg.capture_errors && ci.body_span.start < ci.body_span.end {
                        match &ci.param {
                            Some(pname) => {
                                let mut text: Vec<u8> = Vec::new();
                                push_str_bytes(&mut text, "$scramerr(");
                                push_bytes(&mut text, pname);
                                push_str_bytes(&mut text, ");");
                                proof {
                                    assert(text@ =~= lit("$scramerr(") + pname@ + lit(");"));
                                }
                                out.push(
                                    JsChange::GenericChange {
                                        span: Span {
                                            start: ci.body_span.start + 1,
                                            end: ci.body_span.start + 1,
                                        },
                                        text,
                                    },
                                );
                            },
                            None => {},
                        }
                    }
                },
                None => {},
            }
            proof {
                assert(views(out@) =~= views(old(out)@) + catch_changes(
                    n->TryStmt_catch,
                    *cfg,
                ));
                assert(decreases_to!(*n => n->TryStmt_children));
                assert(n->TryStmt_children == *children);
                assert(decreases_to!(*children => children@));
                assert(decreases_to!(*n => children@));
            }
            visit_seq(out, children, cfg, enc, base);
            proof {
                assert(views(out@) =~= views(old(out)@) + changes_of(*n, *cfg, *enc, base@));
            }
        },
        _ => {
            proof {
                assert(false);
            }
        },
    }
}

/// Walk each node of a sequence of children, in order.
pub fn visit_seq<E: UrlEncoder>(
    out: &mut Vec<JsChange>,
    children: &Vec<Node>,
    cfg: &Config,
    enc: &E,
    base: &Vec<u8>,
)
    ensures
        views(final(out)@) == views(old(out)@) + changes_of_seq(children@, *cfg, *enc, base@),
    decreases children@, 0int,
{
    let n: usize = children.len();
    let mut i: usize = 0;
    proof {
        assert(children@.skip(0) =~= children@);
    }
    while i < n
        invariant
            0 <= i <= n,
            n == children@.len(),
            views(old(out)@) + changes_of_seq(children@, *cfg, *enc, base@) == views(out@)
                + changes_of_seq(children@.skip(i as int), *cfg, *enc, base@),
        decreases n - i,
    {
        proof {
            let s = children@.skip(i as int);
            assert(s[0] == children@[i as int]);
            assert(s.drop_first() =~= children@.skip(i + 1));
            assert(decreases_to!(children@ => children@[i as int]));
        }
        visit_node(out, &children[i], cfg, enc, base);
        proof {
            assert(views(old(out)@) + changes_of_seq(children@, *cfg, *enc, base@) =~= views(out@)
                + changes_of_seq(children@.skip(i + 1), *cfg, *enc, base@));
        }
        i = i + 1;
    }
    proof {
        assert(children@.skip(n as int) =~= Seq::<Node>::empty());
        assert(views(out@) =~= views(old(out)@) + changes_of_seq(children@, *cfg, *enc, base@));
    }
}

/// Walk each property of an object literal, in order.
fn visit_props<E: UrlEncoder>(
    out: &mut Vec<JsChange>,
    props: &Vec<ObjProp>,
    cfg: &Config,
    enc: &E,
    base: &Vec<u8>,
)
    ensures
        views(final(out)@) == views(old(out)@) + changes_of_props(props@, *cfg, *enc, base@),
    decreases props@, 0int,
{
    let n: usize = props.len();
    let mut i: usize = 0;
    proof {
        assert(props@.skip(0) =~= props@);
    }
    while i < n
        invariant
            0 <= i <= n,
            n == props@.len(),
            views(old(out)@) + changes_of_props(props@, *cfg, *enc, base@) == views(out@)
                + changes_of_props(props@.skip(i as int), *cfg, *enc, base@),
        decreases n - i,
    {
        proof {
            let s = props@.skip(i as int);
            assert(s[0] == props@[i as int]);
            assert(s.drop_first() =~= props@.skip(i + 1));
            assert(decreases_to!(props@ => props@[i as int]));
        }
        visit_prop(out, &props[i], cfg, enc, base);
        proof {
            assert(views(old(out)@) + changes_of_props(props@, *cfg, *enc, base@) =~= views(out@)
                + changes_of_props(props@.skip(i + 1), *cfg, *enc, base@));
        }
        i = i + 1;
    }
    proof {
        assert(props@.skip(n as int) =~= Seq::<ObjProp>::empty());
        assert(views(out@) =~= views(old(out)@) + changes_of_props(props@, *cfg, *enc, base@));
    }
}

/// Walk one object-literal property: its computed key, then its value.
fn visit_prop<E: UrlEncoder>(
    out: &mut Vec<JsChange>,
    p: &ObjProp,
    cfg: &Config,
    enc: &E,
    base: &Vec<u8>,
)
    ensures
        views(final(out)@) == views(old(out)@) + changes_of_prop(*p, *cfg, *enc, base@),
    decreases *p, 1int,
{
    match p {
        ObjProp::Property { key, value, shorthand } => {
            proof {
                assert(decreases_to!(*p => p->Property_key));
                assert(p->Property_key == *key);
                assert(decreases_to!(*key => key@));
                assert(decreases_to!(*p => key@));
                assert(decreases_to!(*p => p->Property_value));
                assert(p->Property_value == **value);
            }
            visit_seq(out, key, cfg, enc, base);
            visit_node(out, &**value, cfg, enc, base);
            proof {
                assert(views(out@) =~= views(old(out)@) + changes_of_prop(*p, *cfg, *enc, base@));
            }
        },
        ObjProp::Spread { argument } => {
            proof {
                assert(decreases_to!(*p => p->Spread_argument));
                assert(p->Spread_argument == **argument);
            }
            visit_node(out, &**argument, cfg, enc, base);
            proof {
                assert(views(out@) =~= views(old(out)@) + changes_of_prop(*p, *cfg, *enc, base@));
            }
        },
    }
}

/// Walk the callee chain of a `new` expression.
fn visit_member_chain(out: &mut Vec<JsChange>, n: &Node, cfg: &Config)
    ensures
        views(final(out)@) == views(old(out)@) + member_chain_changes(*n, *cfg),
    decreases *n, 0int,
{
    match n {
        Node::Ident { name, span } => {
            visit_ident(out, name, *span, cfg);
        },
        Node::StaticMember { object, .. } => {
            proof {
                assert(decreases_to!(*n => n->StaticMember_object));
                assert(n->StaticMember_object == **object);
            }
            visit_member_chain(out, &**object, cfg);
        },
        Node::ComputedMember { object, .. } => {
            proof {
                assert(decreases_to!(*n => n->ComputedMember_object));
                assert(n->ComputedMember_object == **object);
            }
            visit_member_chain(out, &**object, cfg);
        },
        _ => {
            proof {
                assert(views(out@) =~= views(old(out)@) + member_chain_changes(*n, *cfg));
            }
        },
    }
}

} // verus!
