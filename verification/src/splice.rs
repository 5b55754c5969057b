//! The splice pass: apply the frozen, ordered edit set to the source bytes,
//! producing the rewritten buffer and, when asked, the source-map entries.

use vstd::prelude::*;
use crate::RewriterError;
use crate::ast::{op_bytes, AssignOp};
use crate::changes::{ChangeV, JsChange, JsChanges};
use crate::config::Config;
use crate::text::{
    dec_bytes, json_escape, json_escape_string, lit, push_bytes, push_range, push_str_bytes,
    sub_vec, u128_to_dec,
};

verus! {

/// The guarded-assignment template: the shim tries the virtualized assignment
/// first and falls back to the plain one.
pub open spec fn assign_text(name: Seq<u8>, op: AssignOp, rhs: Seq<u8>) -> Seq<u8> {
    lit("((t)=>$scramjet$tryset(") + name + lit(",\"") + op_bytes(op) + lit("\",t)||(") + name
        + lit(" ") + op_bytes(op) + lit("t))(") + rhs + lit(")")
}

/// The function tag comment inserted for source maps.
pub open spec fn tag_text(tagstart: u32, tag: Seq<u8>) -> Seq<u8> {
    lit("/*scramtag ") + dec_bytes(tagstart as nat) + lit(" ") + tag + lit("*/")
}

/// Whether every edit fits the source: each span lies within the source and
/// starts at or after the cursor left by the edit before it.
pub open spec fn splice_ok(src: Seq<u8>, cs: Seq<ChangeV>, offset: int) -> bool
    decreases cs.len(),
{
    if cs.len() == 0 {
        offset <= src.len()
    } else {
        match cs[0] {
            ChangeV::Replace { span, text } => {
                &&& offset <= span.start
                &&& span.start <= span.end
                &&& span.end <= src.len()
                &&& splice_ok(src, cs.drop_first(), span.end as int)
            },
            ChangeV::Assign { name, entirespan, rhsspan, op } => {
                &&& offset <= entirespan.start
                &&& entirespan.start <= src.len()
                &&& rhsspan.start <= rhsspan.end
                &&& rhsspan.end <= src.len()
                &&& splice_ok(src, cs.drop_first(), entirespan.end as int)
            },
            ChangeV::Tag { tagstart } => {
                &&& offset <= tagstart
                &&& tagstart <= src.len()
                &&& splice_ok(src, cs.drop_first(), tagstart as int)
            },
        }
    }
}

/// The rewritten bytes: source up to each edit, the edit's expansion, and the
/// tail of the source after the last edit.
pub open spec fn splice_out(src: Seq<u8>, cs: Seq<ChangeV>, tag: Seq<u8>, offset: int) -> Seq<u8>
    decreases cs.len(),
{
    if cs.len() == 0 {
        src.subrange(offset, src.len() as int)
    } else {
        match cs[0] {
            ChangeV::Replace { span, text } => {
                src.subrange(offset, span.start as int) + text + splice_out(
                    src,
                    cs.drop_first(),
                    tag,
                    span.end as int,
                )
            },
            ChangeV::Assign { name, entirespan, rhsspan, op } => {
                src.subrange(offset, entirespan.start as int) + assign_text(
                    name,
                    op,
                    src.subrange(rhsspan.start as int, rhsspan.end as int),
                ) + splice_out(src, cs.drop_first(), tag, entirespan.end as int)
            },
            ChangeV::Tag { tagstart } => {
                src.subrange(offset, tagstart as int) + tag_text(tagstart, tag) + splice_out(
                    src,
                    cs.drop_first(),
                    tag,
                    tagstart as int,
                )
            },
        }
    }
}

/// The source-map entries, one per replacement, in edit order: the escaped
/// original slice, the output offset at which the replacement text lands,
/// and that offset plus the text's length.  `offset` is the input cursor and
/// `outpos` the length of output already written when the remaining edits
/// begin, so the recorded range is a range of the rewritten buffer.
pub open spec fn smap_entries(
    src: Seq<u8>,
    cs: Seq<ChangeV>,
    tag: Seq<u8>,
    offset: int,
    outpos: int,
) -> Seq<u8>
    decreases cs.len(),
{
    if cs.len() == 0 {
        Seq::empty()
    } else {
        match cs[0] {
            ChangeV::Replace { span, text } => {
                let ostart = outpos + span.start - offset;
                lit("[\"") + json_escape(src.subrange(span.start as int, span.end as int)) + lit(
                    "\",",
                ) + dec_bytes(ostart as nat) + lit(",") + dec_bytes((ostart + text.len()) as nat)
                    + lit("],") + smap_entries(
                    src,
                    cs.drop_first(),
                    tag,
                    span.end as int,
                    ostart + text.len(),
                )
            },
            ChangeV::Assign { name, entirespan, rhsspan, op } => {
                smap_entries(
                    src,
                    cs.drop_first(),
                    tag,
                    entirespan.end as int,
                    outpos + entirespan.start - offset + assign_text(
                        name,
                        op,
                        src.subrange(rhsspan.start as int, rhsspan.end as int),
                    ).len(),
                )
            },
            ChangeV::Tag { tagstart } => {
                smap_entries(
                    src,
                    cs.drop_first(),
                    tag,
                    tagstart as int,
                    outpos + tagstart - offset + tag_text(tagstart, tag).len(),
                )
            },
        }
    }
}

/// Apply the edits to the source.  Returns the rewritten buffer and the
/// source-map entry bytes (empty unless `cfg.do_sourcemaps`); fails with
/// `Oob` exactly when some edit does not fit the source.
#[verifier::rlimit(80)]
pub fn splice(src: &Vec<u8>, changes: &JsChanges, tag: &Vec<u8>, cfg: &Config) -> (r: Result<
    (Vec<u8>, Vec<u8>),
    RewriterError,
>)
    ensures
        r is Ok <==> splice_ok(src@, changes@, 0),
        r is Ok ==> r.unwrap().0@ == splice_out(src@, changes@, tag@, 0),
        r is Ok && cfg.do_sourcemaps ==> r.unwrap().1@ == smap_entries(src@, changes@, tag@, 0, 0),
        r is Err ==> r.unwrap_err() == RewriterError::Oob,
{
    let len: usize = src.len();
    let n: usize = changes.v.len();
    let mut buffer: Vec<u8> = Vec::new();
    let mut entries: Vec<u8> = Vec::new();
    let mut offset: usize = 0;
    let mut i: usize = 0;
    proof {
        assert(changes@.skip(0) =~= changes@);
    }
    while i < n
        invariant
            0 <= i <= n,
            n == changes.v@.len(),
            len == src@.len(),
            splice_ok(src@, changes@, 0) <==> splice_ok(
                src@,
                changes@.skip(i as int),
                offset as int,
            ),
            splice_ok(src@, changes@, 0) ==> splice_out(src@, changes@, tag@, 0) == buffer@
                + splice_out(src@, changes@.skip(i as int), tag@, offset as int),
            cfg.do_sourcemaps ==> smap_entries(src@, changes@, tag@, 0, 0) == entries@
                + smap_entries(
                src@,
                changes@.skip(i as int),
                tag@,
                offset as int,
                buffer@.len() as int,
            ),
            !cfg.do_sourcemaps ==> entries@ == Seq::<u8>::empty(),
        decreases n - i,
    {
        proof {
            let todo = changes@.skip(i as int);
            assert(todo[0] == changes@[i as int]);
            assert(changes@[i as int] == changes.v@[i as int]@);
            assert(todo.drop_first() =~= changes@.skip(i + 1));
        }
        match &changes.v[i] {
            JsChange::GenericChange { span, text } => {
                let start: usize = span.start as usize;
                let end: usize = span.end as usize;
                if !(offset <= start && start <= end && end <= len) {
                    return Err(RewriterError::Oob);
                }
                push_range(&mut buffer, src, offset, start);
                if cfg.do_sourcemaps {
                    let slice = sub_vec(src, start, end);
                    let escaped = json_escape_string(&slice);
                    push_str_bytes(&mut entries, "[\"");
                    push_bytes(&mut entries, &escaped);
                    push_str_bytes(&mut entries, "\",");
                    let ostart: u128 = buffer.len() as u128;
                    let d1 = u128_to_dec(ostart);
                    push_bytes(&mut entries, &d1);
                    push_str_bytes(&mut entries, ",");
                    let d2 = u128_to_dec(ostart + text.len() as u128);
                    push_bytes(&mut entries, &d2);
                    push_str_bytes(&mut entries, "],");
                }
                push_bytes(&mut buffer, text);
                offset = end;
            },
            JsChange::Assignment { name, entirespan, rhsspan, op } => {
                let start: usize = entirespan.start as usize;
                let rstart: usize = rhsspan.start as usize;
                let rend: usize = rhsspan.end as usize;
                if !(offset <= start && start <= len && rstart <= rend && rend <= len) {
                    return Err(RewriterError::Oob);
                }
                push_range(&mut buffer, src, offset, start);
                let mut t: Vec<u8> = Vec::new();
                push_str_bytes(&mut t, "((t)=>$scramjet$tryset(");
                push_bytes(&mut t, name);
                push_str_bytes(&mut t, ",\"");
                push_str_bytes(&mut t, op.as_str());
                push_str_bytes(&mut t, "\",t)||(");
                push_bytes(&mut t, name);
                push_str_bytes(&mut t, " ");
                push_str_bytes(&mut t, op.as_str());
                push_str_bytes(&mut t, "t))(");
                push_range(&mut t, src, rstart, rend);
                push_str_bytes(&mut t, ")");
                proof {
                    assert(t@ =~= assign_text(
                        name@,
                        *op,
                        src@.subrange(rstart as int, rend as int),
                    ));
                }
                push_bytes(&mut buffer, &t);
                offset = entirespan.end as usize;
            },
            JsChange::SourceTag { tagstart } => {
                let tpos: usize = *tagstart as usize;
                if !(offset <= tpos && tpos <= len) {
                    return Err(RewriterError::Oob);
                }
                push_range(&mut buffer, src, offset, tpos);
                push_str_bytes(&mut buffer, "/*scramtag ");
                let d = u128_to_dec(*tagstart as u128);
                push_bytes(&mut buffer, &d);
                push_str_bytes(&mut buffer, " ");
                push_bytes(&mut buffer, tag);
                push_str_bytes(&mut buffer, "*/");
                offset = tpos;
            },
        }
        proof {
            let all = changes@;
            let todo = all.skip(i as int);
            assert(splice_ok(src@, all, 0) ==> splice_out(src@, all, tag@, 0) =~= buffer@
                + splice_out(src@, all.skip(i + 1), tag@, offset as int));
            assert(cfg.do_sourcemaps ==> smap_entries(src@, all, tag@, 0, 0) =~= entries@
                + smap_entries(src@, all.skip(i + 1), tag@, offset as int, buffer@.len() as int));
        }
        i = i + 1;
    }
    proof {
        assert(changes@.skip(n as int) =~= Seq::<ChangeV>::empty());
    }
    if offset > len {
        return Err(RewriterError::Oob);
    }
    push_range(&mut buffer, src, offset, len);
    proof {
        assert(splice_out(src@, changes@, tag@, 0) =~= buffer@);
    }
    Ok((buffer, entries))
}

} // verus!
