//! Properties of the rewriter proved once and for all: inert input passes
//! through untouched, and `typeof` operands are never rewritten.

use vstd::prelude::*;
use crate::ast::{AssignTarget, Node, ObjProp};
use crate::changes::{insert_all, ChangeV};
use crate::config::Config;
use crate::globals::is_unsafe_global;
use crate::rewrite::{edits_of, rewrite_ok, rewrite_out};
use crate::splice::{splice_ok, splice_out};
use crate::text::lit;
use crate::urls::UrlEncoder;
use crate::visitor::{
    changes_of, changes_of_prop, changes_of_props, changes_of_seq, is_sh_unsafe,
    member_chain_changes, obj_scan,
};

verus! {

/// Flags under which the rewriter adds nothing of its own accord:
/// no instrumentation, no source maps, no catch probes.
pub open spec fn inert_flags(cfg: Config) -> bool {
    &&& !cfg.scramitize
    &&& !cfg.do_sourcemaps
    &&& !cfg.capture_errors
}

/// A tree containing none of the constructs the policy rewrites: no
/// sensitive identifier references, no `this`, no `debugger`, no
/// `.postMessage`, no module specifiers or `import.meta`, and no assignment
/// to `location`.
pub open spec fn inert(n: Node) -> bool
    decreases n,
{
    match n {
        Node::Ident { name, .. } => !is_unsafe_global(name@),
        Node::This { .. } => false,
        Node::SuperExpr { .. } => true,
        Node::Debugger { .. } => false,
        Node::StaticMember { object, property, .. } => property@ != lit("postMessage") && inert(
            *object,
        ),
        Node::ComputedMember { object, property, .. } => inert(*object) && inert(*property),
        Node::Call { callee, args, .. } => inert(*callee) && inert_seq(args@),
        Node::NewExpr { callee, args, .. } => inert(*callee) && inert_seq(args@),
        Node::TypeofExpr { .. } => true,
        Node::UpdateExpr { .. } => true,
        Node::AssignExpr { target, right, .. } => match target {
            AssignTarget::Ident { name, .. } => name@ != lit("location") && inert(*right),
            AssignTarget::ArrayPat { .. } => true,
            AssignTarget::Target { children, .. } => inert_seq(children@) && inert(*right),
        },
        Node::ObjectExpr { properties, .. } => inert_props(properties@),
        Node::FunctionBody { children, .. } => inert_seq(children@),
        Node::ImportDecl { .. } => false,
        Node::ImportExpr { .. } => false,
        Node::ExportAll { .. } => false,
        Node::ExportNamed { source, .. } => source is None,
        Node::ImportMeta { .. } => false,
        Node::MetaOther { .. } => true,
        Node::ForIn { body, .. } => inert(*body),
        Node::ForOf { body, .. } => inert(*body),
        Node::TryStmt { children, .. } => inert_seq(children@),
        Node::Other { children, .. } => inert_seq(children@),
    }
}

/// Every node of the sequence is inert.
pub open spec fn inert_seq(s: Seq<Node>) -> bool
    decreases s,
{
    if s.len() == 0 {
        true
    } else {
        inert(s[0]) && inert_seq(s.drop_first())
    }
}

/// Every property of the sequence is inert.
pub open spec fn inert_props(s: Seq<ObjProp>) -> bool
    decreases s,
{
    if s.len() == 0 {
        true
    } else {
        inert_prop(s[0]) && inert_props(s.drop_first())
    }
}

/// An object-literal property whose key and value are inert.
pub open spec fn inert_prop(p: ObjProp) -> bool
    decreases p,
{
    match p {
        ObjProp::Property { key, value, .. } => inert_seq(key@) && inert(*value),
        ObjProp::Spread { argument } => inert(*argument),
    }
}

/// An inert callee chain yields no rewrites.
proof fn lemma_inert_chain(n: Node, cfg: Config)
    requires
        inert(n),
    ensures
        member_chain_changes(n, cfg) == Seq::<ChangeV>::empty(),
    decreases n,
{
    match n {
        Node::StaticMember { object, .. } => lemma_inert_chain(*object, cfg),
        Node::ComputedMember { object, .. } => lemma_inert_chain(*object, cfg),
        _ => {
            assert(member_chain_changes(n, cfg) =~= Seq::<ChangeV>::empty());
        },
    }
}

/// An inert scan finds no sensitive shorthand.
proof fn lemma_inert_scan(s: Seq<ObjProp>, cfg: Config)
    requires
        inert_props(s),
    ensures
        obj_scan(s, cfg) is None,
    decreases s,
{
    if s.len() > 0 {
        let p = s[0];
        assert(inert_prop(p));
        match p {
            ObjProp::Property { key, value, shorthand } => {
                match *value {
                    Node::Ident { name, span } => {
                        assert(inert(*value));
                        assert(!is_unsafe_global(name@));
                    },
                    _ => {},
                }
            },
            _ => {},
        }
        assert(!is_sh_unsafe(p));
        lemma_inert_scan(s.drop_first(), cfg);
    }
}

/// The walk of an inert tree emits nothing.
pub proof fn lemma_inert_changes<E: UrlEncoder>(n: Node, cfg: Config, enc: E, base: Seq<u8>)
    requires
        inert_flags(cfg),
        inert(n),
    ensures
        changes_of(n, cfg, enc, base) == Seq::<ChangeV>::empty(),
    decreases n, 1int,
{
    match n {
        Node::StaticMember { object, .. } => {
            lemma_inert_changes(*object, cfg, enc, base);
            assert(changes_of(n, cfg, enc, base) =~= Seq::<ChangeV>::empty());
        },
        Node::ComputedMember { object, property, .. } => {
            lemma_inert_changes(*object, cfg, enc, base);
            lemma_inert_changes(*property, cfg, enc, base);
            assert(changes_of(n, cfg, enc, base) =~= Seq::<ChangeV>::empty());
        },
        Node::Call { callee, args, optional, span } => {
            lemma_inert_changes(*callee, cfg, enc, base);
            lemma_inert_seq(args@, cfg, enc, base);
            assert(changes_of(n, cfg, enc, base) =~= Seq::<ChangeV>::empty());
        },
        Node::NewExpr { callee, args, .. } => {
            lemma_inert_chain(*callee, cfg);
            lemma_inert_seq(args@, cfg, enc, base);
            assert(changes_of(n, cfg, enc, base) =~= Seq::<ChangeV>::empty());
        },
        Node::AssignExpr { target, right, .. } => {
            match target {
                AssignTarget::Ident { name, .. } => {
                    lemma_inert_changes(*right, cfg, enc, base);
                },
                AssignTarget::ArrayPat { .. } => {},
                AssignTarget::Target { children, .. } => {
                    lemma_inert_seq(children@, cfg, enc, base);
                    lemma_inert_changes(*right, cfg, enc, base);
                },
            }
            assert(changes_of(n, cfg, enc, base) =~= Seq::<ChangeV>::empty());
        },
        Node::ObjectExpr { properties, .. } => {
            lemma_inert_scan(properties@, cfg);
            lemma_inert_props(properties@, cfg, enc, base);
            assert(changes_of(n, cfg, enc, base) =~= Seq::<ChangeV>::empty());
        },
        Node::FunctionBody { children, .. } => {
            lemma_inert_seq(children@, cfg, enc, base);
            assert(changes_of(n, cfg, enc, base) =~= Seq::<ChangeV>::empty());
        },
        Node::ForIn { body, .. } => {
            lemma_inert_changes(*body, cfg, enc, base);
        },
        Node::ForOf { body, .. } => {
            lemma_inert_changes(*body, cfg, enc, base);
        },
        Node::TryStmt { catch, children, .. } => {
            lemma_inert_seq(children@, cfg, enc, base);
            assert(changes_of(n, cfg, enc, base) =~= Seq::<ChangeV>::empty());
        },
        Node::Other { children, .. } => {
            lemma_inert_seq(children@, cfg, enc, base);
        },
        _ => {
            assert(changes_of(n, cfg, enc, base) =~= Seq::<ChangeV>::empty());
        },
    }
}

/// The walk of a sequence of inert trees emits nothing.
pub proof fn lemma_inert_seq<E: UrlEncoder>(s: Seq<Node>, cfg: Config, enc: E, base: Seq<u8>)
    requires
        inert_flags(cfg),
        inert_seq(s),
    ensures
        changes_of_seq(s, cfg, enc, base) == Seq::<ChangeV>::empty(),
    decreases s, 0int,
{
    if s.len() > 0 {
        lemma_inert_changes(s[0], cfg, enc, base);
        lemma_inert_seq(s.drop_first(), cfg, enc, base);
        assert(changes_of_seq(s, cfg, enc, base) =~= Seq::<ChangeV>::empty());
    }
}

/// The walk of a sequence of inert properties emits nothing.
proof fn lemma_inert_props<E: UrlEncoder>(s: Seq<ObjProp>, cfg: Config, enc: E, base: Seq<u8>)
    requires
        inert_flags(cfg),
        inert_props(s),
    ensures
        changes_of_props(s, cfg, enc, base) == Seq::<ChangeV>::empty(),
    decreases s, 0int,
{
    if s.len() > 0 {
        lemma_inert_prop(s[0], cfg, enc, base);
        lemma_inert_props(s.drop_first(), cfg, enc, base);
        assert(changes_of_props(s, cfg, enc, base) =~= Seq::<ChangeV>::empty());
    }
}

/// The walk of one inert property emits nothing.
proof fn lemma_inert_prop<E: UrlEncoder>(p: ObjProp, cfg: Config, enc: E, base: Seq<u8>)
    requires
        inert_flags(cfg),
        inert_prop(p),
    ensures
        changes_of_prop(p, cfg, enc, base) == Seq::<ChangeV>::empty(),
    decreases p, 1int,
{
    match p {
        ObjProp::Property { key, value, .. } => {
            lemma_inert_seq(key@, cfg, enc, base);
            lemma_inert_changes(*value, cfg, enc, base);
            assert(changes_of_prop(p, cfg, enc, base) =~= Seq::<ChangeV>::empty());
        },
        ObjProp::Spread { argument } => {
            lemma_inert_changes(*argument, cfg, enc, base);
        },
    }
}

/// No edits means the splice is the identity.
pub proof fn lemma_splice_empty(src: Seq<u8>, tag: Seq<u8>)
    ensures
        splice_ok(src, Seq::<ChangeV>::empty(), 0),
        splice_out(src, Seq::<ChangeV>::empty(), tag, 0) == src,
{
    assert(splice_out(src, Seq::<ChangeV>::empty(), tag, 0) =~= src);
}

/// No-op on inert input: with instrumentation, source maps and error capture
/// off, a program containing none of the rewritten constructs comes back
/// byte-identical to its source.
pub proof fn lemma_no_op_on_inert<E: UrlEncoder>(
    src: Seq<u8>,
    program: Node,
    base: Seq<u8>,
    tag: Seq<u8>,
    cfg: Config,
    enc: E,
)
    requires
        inert_flags(cfg),
        inert(program),
    ensures
        rewrite_ok(src, program, base, cfg, enc),
        rewrite_out(src, program, base, tag, cfg, enc) == src,
{
    lemma_inert_changes(program, cfg, enc, base);
    assert(edits_of(program, cfg, enc, base) == insert_all(
        Seq::<ChangeV>::empty(),
        Seq::<ChangeV>::empty(),
    ));
    assert(edits_of(program, cfg, enc, base) == Seq::<ChangeV>::empty());
    lemma_splice_empty(src, tag);
}

/// Deterministic order: whatever a program's walk emits, the edit set the
/// splicer reads is strictly sorted by primary offset — edits with equal
/// offsets have collapsed to the one emitted first.
pub proof fn lemma_edits_sorted<E: UrlEncoder>(program: Node, cfg: Config, enc: E, base: Seq<u8>)
    ensures
        crate::changes::sorted_by_key(edits_of(program, cfg, enc, base)),
{
    crate::changes::lemma_insert_all_sorted(
        Seq::<ChangeV>::empty(),
        changes_of(program, cfg, enc, base),
    );
}

/// Whether one edit consumes the input byte at `q`: only replacements and
/// assignment expansions consume source bytes; tags are pure insertions.
pub open spec fn covered_by(c: ChangeV, q: int) -> bool {
    match c {
        ChangeV::Replace { span, .. } => span.start <= q < span.end,
        ChangeV::Assign { entirespan, .. } => entirespan.start <= q < entirespan.end,
        ChangeV::Tag { .. } => false,
    }
}

/// Whether any edit of the set consumes the input byte at `q`.
pub open spec fn covered(cs: Seq<ChangeV>, q: int) -> bool {
    exists|i: int| 0 <= i < cs.len() && covered_by(#[trigger] cs[i], q)
}

/// The output position at which the uncovered input byte at `q` lands.
pub open spec fn out_pos(src: Seq<u8>, cs: Seq<ChangeV>, tag: Seq<u8>, offset: int, q: int) -> int
    decreases cs.len(),
{
    if cs.len() == 0 {
        q - offset
    } else {
        match cs[0] {
            ChangeV::Replace { span, text } => {
                if q < span.start {
                    q - offset
                } else {
                    (span.start - offset) + text.len() + out_pos(
                        src,
                        cs.drop_first(),
                        tag,
                        span.end as int,
                        q,
                    )
                }
            },
            ChangeV::Assign { name, entirespan, rhsspan, op } => {
                if q < entirespan.start {
                    q - offset
                } else {
                    (entirespan.start - offset) + crate::splice::assign_text(
                        name,
                        op,
                        src.subrange(rhsspan.start as int, rhsspan.end as int),
                    ).len() + out_pos(src, cs.drop_first(), tag, entirespan.end as int, q)
                }
            },
            ChangeV::Tag { tagstart } => {
                if q < tagstart {
                    q - offset
                } else {
                    (tagstart - offset) + crate::splice::tag_text(tagstart, tag).len() + out_pos(
                        src,
                        cs.drop_first(),
                        tag,
                        tagstart as int,
                    q,
                    )
                }
            },
        }
    }
}

/// Dropping the first edit of a set that does not cover `q` leaves `q`
/// uncovered.
proof fn lemma_uncovered_rest(cs: Seq<ChangeV>, q: int)
    requires
        cs.len() > 0,
        !covered(cs, q),
    ensures
        !covered(cs.drop_first(), q),
{
    let rest = cs.drop_first();
    assert forall|i: int| 0 <= i < rest.len() implies !covered_by(#[trigger] rest[i], q) by {
        assert(rest[i] == cs[i + 1]);
    }
}

/// Preservation off-site, position and value: an input byte consumed by no
/// replacement or assignment appears verbatim in the spliced output, at the
/// position [`out_pos`] names.
pub proof fn lemma_preservation(src: Seq<u8>, cs: Seq<ChangeV>, tag: Seq<u8>, offset: int, q: int)
    requires
        splice_ok(src, cs, offset),
        0 <= offset <= q < src.len(),
        !covered(cs, q),
    ensures
        0 <= out_pos(src, cs, tag, offset, q) < splice_out(src, cs, tag, offset).len(),
        splice_out(src, cs, tag, offset)[out_pos(src, cs, tag, offset, q)] == src[q],
    decreases cs.len(),
{
    if cs.len() == 0 {
    } else {
        let rest = cs.drop_first();
        lemma_uncovered_rest(cs, q);
        assert(covered_by(cs[0], q) ==> covered(cs, q));
        match cs[0] {
            ChangeV::Replace { span, text } => {
                if q < span.start {
                } else {
                    assert(q >= span.end);
                    lemma_preservation(src, rest, tag, span.end as int, q);
                }
            },
            ChangeV::Assign { name, entirespan, rhsspan, op } => {
                if q < entirespan.start {
                } else {
                    assert(q >= entirespan.end);
                    lemma_preservation(src, rest, tag, entirespan.end as int, q);
                }
            },
            ChangeV::Tag { tagstart } => {
                if q < tagstart {
                } else {
                    lemma_preservation(src, rest, tag, tagstart as int, q);
                }
            },
        }
    }
}

/// Preservation off-site, relative order: two uncovered input bytes keep
/// their order in the spliced output.
pub proof fn lemma_preservation_order(
    src: Seq<u8>,
    cs: Seq<ChangeV>,
    tag: Seq<u8>,
    offset: int,
    q1: int,
    q2: int,
)
    requires
        splice_ok(src, cs, offset),
        0 <= offset <= q1 < q2 < src.len(),
        !covered(cs, q1),
        !covered(cs, q2),
    ensures
        out_pos(src, cs, tag, offset, q1) < out_pos(src, cs, tag, offset, q2),
    decreases cs.len(),
{
    if cs.len() == 0 {
    } else {
        let rest = cs.drop_first();
        lemma_uncovered_rest(cs, q1);
        lemma_uncovered_rest(cs, q2);
        assert(covered_by(cs[0], q1) ==> covered(cs, q1));
        assert(covered_by(cs[0], q2) ==> covered(cs, q2));
        match cs[0] {
            ChangeV::Replace { span, text } => {
                if q2 < span.start {
                } else if q1 < span.start {
                    assert(q2 >= span.end);
                    lemma_preservation(src, rest, tag, span.end as int, q2);
                } else {
                    lemma_preservation_order(src, rest, tag, span.end as int, q1, q2);
                }
            },
            ChangeV::Assign { name, entirespan, rhsspan, op } => {
                if q2 < entirespan.start {
                } else if q1 < entirespan.start {
                    assert(q2 >= entirespan.end);
                    lemma_preservation(src, rest, tag, entirespan.end as int, q2);
                } else {
                    lemma_preservation_order(src, rest, tag, entirespan.end as int, q1, q2);
                }
            },
            ChangeV::Tag { tagstart } => {
                if q2 < tagstart {
                } else if q1 < tagstart {
                    lemma_preservation(src, rest, tag, tagstart as int, q2);
                } else {
                    lemma_preservation_order(src, rest, tag, tagstart as int, q1, q2);
                }
            },
        }
    }
}

/// Preservation off-site for a whole rewrite without source maps: every
/// input byte no edit of the program consumes appears verbatim in the
/// output, and any two such bytes keep their relative order.
pub proof fn lemma_rewrite_preserves_offsite<E: UrlEncoder>(
    src: Seq<u8>,
    program: Node,
    base: Seq<u8>,
    tag: Seq<u8>,
    cfg: Config,
    enc: E,
    q1: int,
    q2: int,
)
    requires
        !cfg.do_sourcemaps,
        rewrite_ok(src, program, base, cfg, enc),
        0 <= q1 < q2 < src.len(),
        !covered(edits_of(program, cfg, enc, base), q1),
        !covered(edits_of(program, cfg, enc, base), q2),
    ensures
        ({
            let out = rewrite_out(src, program, base, tag, cfg, enc);
            let cs = edits_of(program, cfg, enc, base);
            &&& out[out_pos(src, cs, tag, 0, q1)] == src[q1]
            &&& out[out_pos(src, cs, tag, 0, q2)] == src[q2]
            &&& 0 <= out_pos(src, cs, tag, 0, q1) < out_pos(src, cs, tag, 0, q2) < out.len()
        }),
{
    let cs = edits_of(program, cfg, enc, base);
    lemma_preservation(src, cs, tag, 0, q1);
    lemma_preservation(src, cs, tag, 0, q2);
    lemma_preservation_order(src, cs, tag, 0, q1, q2);
}

/// Direct-eval preservation: for a non-optional call of the bare identifier
/// `eval`, the walk emits exactly two edits of its own — the bytes of the
/// callee and the following parenthesis become `eval(` followed by the
/// rewrite shim's name and `(`, and a closing `)` is inserted at the call's
/// end — followed by the edits of the arguments alone.  The callee itself is
/// not walked, so the emitted callee token is still the bare `eval`.
pub proof fn lemma_direct_eval_changes<E: UrlEncoder>(
    callee: Node,
    args: Vec<Node>,
    span: crate::Span,
    cfg: Config,
    enc: E,
    base: Seq<u8>,
)
    requires
        crate::visitor::is_direct_eval(callee, false, span),
    ensures
        ({
            let n = Node::Call { callee: std::boxed::Box::new(callee), args, optional: false, span };
            changes_of(n, cfg, enc, base) == seq![
                ChangeV::Replace {
                    span: crate::Span {
                        start: callee.span_of().start,
                        end: (callee.span_of().end + 1) as u32,
                    },
                    text: lit("eval(") + crate::text::str_bytes(cfg.rewritefn) + lit("("),
                },
                ChangeV::Replace {
                    span: crate::Span { start: span.end, end: span.end },
                    text: lit(")"),
                },
            ] + changes_of_seq(args@, cfg, enc, base)
        }),
{
}

/// The output position at which the tag comment of the `k`-th edit begins,
/// when that edit is a source tag.
pub open spec fn tag_pos(src: Seq<u8>, cs: Seq<ChangeV>, tag: Seq<u8>, offset: int, k: int) -> int
    decreases k,
{
    if cs.len() == 0 {
        0
    } else if k <= 0 {
        match cs[0] {
            ChangeV::Tag { tagstart } => tagstart - offset,
            _ => 0,
        }
    } else {
        match cs[0] {
            ChangeV::Replace { span, text } => {
                (span.start - offset) + text.len() + tag_pos(
                    src,
                    cs.drop_first(),
                    tag,
                    span.end as int,
                    k - 1,
                )
            },
            ChangeV::Assign { name, entirespan, rhsspan, op } => {
                (entirespan.start - offset) + crate::splice::assign_text(
                    name,
                    op,
                    src.subrange(rhsspan.start as int, rhsspan.end as int),
                ).len() + tag_pos(src, cs.drop_first(), tag, entirespan.end as int, k - 1)
            },
            ChangeV::Tag { tagstart } => {
                (tagstart - offset) + crate::splice::tag_text(tagstart, tag).len() + tag_pos(
                    src,
                    cs.drop_first(),
                    tag,
                    tagstart as int,
                    k - 1,
                )
            },
        }
    }
}

/// Source-tag placement: the comment a source tag inserts appears in the
/// spliced output immediately after the output image of the input bytes
/// before its recorded offset — and the offset written inside the comment is
/// that same input offset.
pub proof fn lemma_sourcetag_placement(
    src: Seq<u8>,
    cs: Seq<ChangeV>,
    tag: Seq<u8>,
    offset: int,
    k: int,
)
    requires
        splice_ok(src, cs, offset),
        0 <= offset,
        0 <= k < cs.len(),
        cs[k] is Tag,
    ensures
        ({
            let t = cs[k]->tagstart;
            let c = crate::splice::tag_text(t, tag);
            let p = tag_pos(src, cs, tag, offset, k);
            let out = splice_out(src, cs, tag, offset);
            &&& 0 <= p
            &&& p + c.len() <= out.len()
            &&& out.subrange(p, p + c.len()) == c
        }),
    decreases k,
{
    let rest = cs.drop_first();
    let out = splice_out(src, cs, tag, offset);
    if k == 0 {
        let t = cs[0]->tagstart;
        let c = crate::splice::tag_text(t, tag);
        assert(out == src.subrange(offset, t as int) + c + splice_out(src, rest, tag, t as int));
        assert(out.subrange(t - offset, t - offset + c.len()) =~= c);
    } else {
        match cs[0] {
            ChangeV::Replace { span, text } => {
                lemma_sourcetag_placement(src, rest, tag, span.end as int, k - 1);
                let t = cs[k]->tagstart;
                let c = crate::splice::tag_text(t, tag);
                let p1 = tag_pos(src, rest, tag, span.end as int, k - 1);
                let head = src.subrange(offset, span.start as int) + text;
                assert(rest[k - 1] == cs[k]);
                assert(out == head + splice_out(src, rest, tag, span.end as int));
                assert(out.subrange(head.len() + p1, head.len() + p1 + c.len()) =~= splice_out(
                    src,
                    rest,
                    tag,
                    span.end as int,
                ).subrange(p1, p1 + c.len()));
            },
            ChangeV::Assign { name, entirespan, rhsspan, op } => {
                lemma_sourcetag_placement(src, rest, tag, entirespan.end as int, k - 1);
                let t = cs[k]->tagstart;
                let c = crate::splice::tag_text(t, tag);
                let p1 = tag_pos(src, rest, tag, entirespan.end as int, k - 1);
                let head = src.subrange(offset, entirespan.start as int)
                    + crate::splice::assign_text(
                    name,
                    op,
                    src.subrange(rhsspan.start as int, rhsspan.end as int),
                );
                assert(rest[k - 1] == cs[k]);
                assert(out == head + splice_out(src, rest, tag, entirespan.end as int));
                assert(out.subrange(head.len() + p1, head.len() + p1 + c.len()) =~= splice_out(
                    src,
                    rest,
                    tag,
                    entirespan.end as int,
                ).subrange(p1, p1 + c.len()));
            },
            ChangeV::Tag { tagstart } => {
                lemma_sourcetag_placement(src, rest, tag, tagstart as int, k - 1);
                let t = cs[k]->tagstart;
                let c = crate::splice::tag_text(t, tag);
                let p1 = tag_pos(src, rest, tag, tagstart as int, k - 1);
                let head = src.subrange(offset, tagstart as int) + crate::splice::tag_text(
                    tagstart,
                    tag,
                );
                assert(rest[k - 1] == cs[k]);
                assert(out == head + splice_out(src, rest, tag, tagstart as int));
                assert(out.subrange(head.len() + p1, head.len() + p1 + c.len()) =~= splice_out(
                    src,
                    rest,
                    tag,
                    tagstart as int,
                ).subrange(p1, p1 + c.len()));
            },
        }
    }
}

/// typeof-guard: the operand of a `typeof` expression is never rewritten —
/// the walk of such an expression emits no edit at all, whatever the operand
/// holds.
pub proof fn lemma_typeof_guard<E: UrlEncoder>(
    argument: Node,
    span: crate::Span,
    cfg: Config,
    enc: E,
    base: Seq<u8>,
)
    ensures
        changes_of(
            Node::TypeofExpr { argument: std::boxed::Box::new(argument), span },
            cfg,
            enc,
            base,
        ) == Seq::<ChangeV>::empty(),
{
    assert(changes_of(
        Node::TypeofExpr { argument: std::boxed::Box::new(argument), span },
        cfg,
        enc,
        base,
    ) =~= Seq::<ChangeV>::empty());
}

} // verus!
