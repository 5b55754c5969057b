//! The driver: walk the program, order the collected edits, and splice them
//! into the source bytes, with the optional source-map prelude.

use vstd::prelude::*;
use crate::RewriterError;
use crate::ast::Node;
use crate::changes::{insert_all, insert_change, views, ChangeV, JsChange, JsChanges};
use crate::config::Config;
use crate::splice::{smap_entries, splice, splice_ok, splice_out};
use crate::text::{lit, push_bytes, push_str_bytes, str_bytes};
use crate::urls::UrlEncoder;
use crate::visitor::{changes_of, visit_node};

verus! {

/// The ordered edit set a program produces: every edit the walk emits,
/// inserted in turn into the key-ordered, deduplicated set.
pub open spec fn edits_of<E: UrlEncoder>(
    program: Node,
    cfg: Config,
    enc: E,
    base: Seq<u8>,
) -> Seq<ChangeV> {
    insert_all(Seq::empty(), changes_of(program, cfg, enc, base))
}

/// Whether the rewrite succeeds: every edit fits the source.
pub open spec fn rewrite_ok<E: UrlEncoder>(
    src: Seq<u8>,
    program: Node,
    base: Seq<u8>,
    cfg: Config,
    enc: E,
) -> bool {
    splice_ok(src, edits_of(program, cfg, enc, base), 0)
}

/// The bytes a successful rewrite returns: the spliced source, preceded by
/// the source-map prelude when `cfg.do_sourcemaps` is set.
pub open spec fn rewrite_out<E: UrlEncoder>(
    src: Seq<u8>,
    program: Node,
    base: Seq<u8>,
    tag: Seq<u8>,
    cfg: Config,
    enc: E,
) -> Seq<u8> {
    let cs = edits_of(program, cfg, enc, base);
    if cfg.do_sourcemaps {
        str_bytes(cfg.pushsourcemapfn) + lit("([") + smap_entries(src, cs, tag, 0, 0) + lit("],\"")
            + tag + lit("\");\n") + splice_out(src, cs, tag, 0)
    } else {
        splice_out(src, cs, tag, 0)
    }
}

/// Rewrite one source unit.
///
/// `js` holds the source bytes `program` was parsed from, `base` the
/// serialized base URL specifiers are resolved against, and `sourcetag` the
/// opaque tag carried into source-map output.  The walk is pure, so the only
/// failure is an edit that does not fit the source, reported as `Oob`.
pub fn rewrite<E: UrlEncoder>(
    js: &Vec<u8>,
    program: &Node,
    base: &Vec<u8>,
    sourcetag: &String,
    config: &Config,
    encoder: &E,
) -> (r: Result<Vec<u8>, RewriterError>)
    ensures
        r is Ok <==> rewrite_ok(js@, *program, base@, *config, *encoder),
        r is Ok ==> r.unwrap()@ == rewrite_out(
            js@,
            *program,
            base@,
            str_bytes(*sourcetag),
            *config,
            *encoder,
        ),
        r is Err ==> r.unwrap_err() == RewriterError::Oob,
{
    let mut list: Vec<JsChange> = Vec::new();
    visit_node(&mut list, program, config, encoder, base);
    proof {
        assert(views(list@) =~= changes_of(*program, *config, *encoder, base@));
    }
    let mut set = JsChanges::new();
    let ghost cs = views(list@);
    let n: usize = list.len();
    let mut i: usize = 0;
    proof {
        assert(cs.take(0) =~= Seq::<ChangeV>::empty());
    }
    while i < n
        invariant
            0 <= i <= n,
            n == list@.len(),
            cs == views(list@),
            set.wf(),
            set@ == insert_all(Seq::empty(), cs.take(i as int)),
        decreases n - i,
    {
        proof {
            crate::changes::lemma_insert_all_concat(
                Seq::empty(),
                cs.take(i as int),
                seq![cs[i as int]],
            );
            assert(cs.take(i as int) + seq![cs[i as int]] =~= cs.take(i + 1));
            assert(insert_all(set@, seq![cs[i as int]]) == insert_change(set@, cs[i as int])) by {
                let one = seq![cs[i as int]];
                assert(one.drop_first() =~= Seq::<ChangeV>::empty());
                assert(insert_all(set@, one) == insert_all(
                    insert_change(set@, cs[i as int]),
                    one.drop_first(),
                ));
                assert(insert_all(insert_change(set@, cs[i as int]), Seq::<ChangeV>::empty())
                    == insert_change(set@, cs[i as int]));
            }
            assert(views(list@)[i as int] == list@[i as int]@);
        }
        let c = list[i].clone_change();
        set.insert(c);
        i = i + 1;
    }
    proof {
        assert(cs.take(n as int) =~= cs);
        assert(set@ == edits_of(*program, *config, *encoder, base@));
    }
    let mut tagb: Vec<u8> = Vec::new();
    push_str_bytes(&mut tagb, sourcetag.as_str());
    proof {
        assert(tagb@ =~= str_bytes(*sourcetag));
    }
    match splice(js, &set, &tagb, config) {
        Ok((buffer, entries)) => {
            if config.do_sourcemaps {
                let mut out: Vec<u8> = Vec::new();
                push_str_bytes(&mut out, config.pushsourcemapfn.as_str());
                push_str_bytes(&mut out, "([");
                push_bytes(&mut out, &entries);
                push_str_bytes(&mut out, "],\"");
                push_bytes(&mut out, &tagb);
                push_str_bytes(&mut out, "\");\n");
                push_bytes(&mut out, &buffer);
                proof {
                    assert(out@ =~= rewrite_out(
                        js@,
                        *program,
                        base@,
                        str_bytes(*sourcetag),
                        *config,
                        *encoder,
                    ));
                }
                Ok(out)
            } else {
                Ok(buffer)
            }
        },
        Err(e) => Err(e),
    }
}

} // verus!
