use rewriter::ast::{AssignOp, AssignTarget, CatchInfo, Node, ObjProp, SourceLit};
use rewriter::config::Config;
use rewriter::rewrite::rewrite;
use rewriter::text::json_escape_string;
use rewriter::urls::IdentityEncoder;
use rewriter::{RewriterError, Span};

fn sp(start: u32, end: u32) -> Span {
    Span { start, end }
}

fn cfg() -> Config {
    Config {
        prefix: "/x/".to_string(),
        wrapfn: "WRAPFN".to_string(),
        wrapthisfn: "WRAPTHISFN".to_string(),
        importfn: "IMPORTFN".to_string(),
        rewritefn: "REWRITEFN".to_string(),
        setrealmfn: "SETREALMFN".to_string(),
        metafn: "METAFN".to_string(),
        pushsourcemapfn: "PUSHSOURCEMAPFN".to_string(),
        capture_errors: false,
        scramitize: false,
        do_sourcemaps: false,
        strict_rewrites: false,
    }
}

fn ident(name: &str, start: u32, end: u32) -> Node {
    Node::Ident { name: name.as_bytes().to_vec(), span: sp(start, end) }
}

fn leaf(start: u32, end: u32) -> Node {
    Node::Other { children: vec![], span: sp(start, end) }
}

fn program(children: Vec<Node>, end: u32) -> Node {
    Node::Other { children, span: sp(0, end) }
}

fn run_with(src: &str, node: Node, config: Config) -> Result<String, RewriterError> {
    let js = src.as_bytes().to_vec();
    let base = "https://h/".as_bytes().to_vec();
    let tag = "tag".to_string();
    let enc = IdentityEncoder {};
    rewrite(&js, &node, &base, &tag, &config, &enc).map(|v| String::from_utf8(v).unwrap())
}

fn run(src: &str, node: Node) -> String {
    run_with(src, node, cfg()).unwrap()
}

#[test]
fn window_member_is_wrapped() {
    let src = "window.foo";
    let node = program(
        vec![Node::StaticMember {
            object: Box::new(ident("window", 0, 6)),
            property: b"foo".to_vec(),
            property_span: sp(7, 10),
            span: sp(0, 10),
        }],
        10,
    );
    assert_eq!(run(src, node), "(WRAPFN(window)).foo");
}

#[test]
fn this_member_is_wrapped() {
    let src = "this.x";
    let node = program(
        vec![Node::StaticMember {
            object: Box::new(Node::This { span: sp(0, 4) }),
            property: b"x".to_vec(),
            property_span: sp(5, 6),
            span: sp(0, 6),
        }],
        6,
    );
    assert_eq!(run(src, node), "(WRAPTHISFN(this)).x");
}

#[test]
fn debugger_is_deleted() {
    let src = "debugger;";
    let node = program(vec![Node::Debugger { span: sp(0, 8) }], 9);
    assert_eq!(run(src, node), ";");
}

#[test]
fn direct_eval_keeps_direct_callee() {
    let src = "eval(x)";
    let node = program(
        vec![Node::Call {
            callee: Box::new(ident("eval", 0, 4)),
            args: vec![ident("x", 5, 6)],
            optional: false,
            span: sp(0, 7),
        }],
        7,
    );
    let out = run(src, node);
    assert_eq!(out, "eval(REWRITEFN(x))");
    assert!(out.starts_with("eval("));
}

#[test]
fn optional_eval_becomes_indirect() {
    let src = "eval?.(x)";
    let node = program(
        vec![Node::Call {
            callee: Box::new(ident("eval", 0, 4)),
            args: vec![ident("x", 7, 8)],
            optional: true,
            span: sp(0, 9),
        }],
        9,
    );
    assert_eq!(run(src, node), "(WRAPFN(eval))?.(x)");
}

#[test]
fn import_declaration_rewrites_specifier() {
    let src = "import \"./a.js\"";
    let node = program(
        vec![Node::ImportDecl {
            source: SourceLit { value: b"./a.js".to_vec(), span: sp(7, 15) },
            children: vec![],
            span: sp(0, 15),
        }],
        15,
    );
    assert_eq!(run(src, node), "import \"/x/https://h/a.js\"");
}

#[test]
fn dynamic_import_is_redirected() {
    let src = "import(\"./a.js\")";
    let node = program(
        vec![Node::ImportExpr { children: vec![leaf(7, 15)], span: sp(0, 16) }],
        16,
    );
    assert_eq!(run(src, node), "(IMPORTFN(\"https://h/\"))(\"./a.js\")");
}

#[test]
fn import_meta_is_replaced() {
    let src = "import.meta";
    let node = program(vec![Node::ImportMeta { span: sp(0, 11) }], 11);
    assert_eq!(run(src, node), "METAFN(\"https://h/\")");
}

#[test]
fn location_assignment_is_guarded() {
    let src = "location = \"u\"";
    let node = program(
        vec![Node::AssignExpr {
            target: AssignTarget::Ident { name: b"location".to_vec(), span: sp(0, 8) },
            op: AssignOp::Assign,
            right: Box::new(leaf(11, 14)),
            span: sp(0, 14),
        }],
        14,
    );
    assert_eq!(
        run(src, node),
        "((t)=>$scramjet$tryset(location,\"=\",t)||(location =t))(\"u\")"
    );
}

#[test]
fn location_compound_assignment_keeps_operator() {
    let src = "location += q";
    let node = program(
        vec![Node::AssignExpr {
            target: AssignTarget::Ident { name: b"location".to_vec(), span: sp(0, 8) },
            op: AssignOp::AddAssign,
            right: Box::new(leaf(12, 13)),
            span: sp(0, 13),
        }],
        13,
    );
    assert_eq!(
        run(src, node),
        "((t)=>$scramjet$tryset(location,\"+=\",t)||(location +=t))(q)"
    );
}

#[test]
fn post_message_gets_realm_wrap() {
    let src = "a.postMessage(m)";
    let node = program(
        vec![Node::Call {
            callee: Box::new(Node::StaticMember {
                object: Box::new(ident("a", 0, 1)),
                property: b"postMessage".to_vec(),
                property_span: sp(2, 13),
                span: sp(0, 13),
            }),
            args: vec![ident("m", 14, 15)],
            optional: false,
            span: sp(0, 16),
        }],
        16,
    );
    assert_eq!(run(src, node), "a.SETREALMFN({}).postMessage(m)");
}

#[test]
fn typeof_operand_is_untouched() {
    let src = "typeof window";
    let node = program(
        vec![Node::TypeofExpr { argument: Box::new(ident("window", 7, 13)), span: sp(0, 13) }],
        13,
    );
    assert_eq!(run(src, node), "typeof window");
}

#[test]
fn inert_input_is_unchanged() {
    let src = "var x = y + 1;";
    let node = program(
        vec![Node::Other {
            children: vec![ident("y", 8, 9)],
            span: sp(0, 14),
        }],
        14,
    );
    assert_eq!(run(src, node), src);
}

#[test]
fn second_rewrite_only_rewraps_globals() {
    let first = run("window", program(vec![ident("window", 0, 6)], 6));
    assert_eq!(first, "(WRAPFN(window))");
    let node = program(
        vec![Node::Other {
            children: vec![Node::Call {
                callee: Box::new(ident("WRAPFN", 1, 7)),
                args: vec![ident("window", 8, 14)],
                optional: false,
                span: sp(1, 15),
            }],
            span: sp(0, 16),
        }],
        16,
    );
    assert_eq!(run(&first, node), "(WRAPFN((WRAPFN(window))))");
}

#[test]
fn shorthand_unsafe_property_is_expanded() {
    let src = "({window})";
    let node = program(
        vec![Node::Other {
            children: vec![Node::ObjectExpr {
                properties: vec![ObjProp::Property {
                    key: vec![],
                    value: Box::new(ident("window", 2, 8)),
                    shorthand: true,
                }],
                span: sp(1, 9),
            }],
            span: sp(0, 10),
        }],
        10,
    );
    assert_eq!(run(src, node), "({window: (WRAPFN(window))})");
}

#[test]
fn only_first_unsafe_shorthand_is_expanded() {
    let src = "({window,document})";
    let node = program(
        vec![Node::Other {
            children: vec![Node::ObjectExpr {
                properties: vec![
                    ObjProp::Property {
                        key: vec![],
                        value: Box::new(ident("window", 2, 8)),
                        shorthand: true,
                    },
                    ObjProp::Property {
                        key: vec![],
                        value: Box::new(ident("document", 9, 17)),
                        shorthand: true,
                    },
                ],
                span: sp(1, 18),
            }],
            span: sp(0, 19),
        }],
        19,
    );
    assert_eq!(run(src, node), "({window: (WRAPFN(window)),document})");
}

#[test]
fn new_callee_chain_wraps_leaf_identifier() {
    let src = "new location.Foo()";
    let node = program(
        vec![Node::NewExpr {
            callee: Box::new(Node::StaticMember {
                object: Box::new(ident("location", 4, 12)),
                property: b"Foo".to_vec(),
                property_span: sp(13, 16),
                span: sp(4, 16),
            }),
            args: vec![],
            span: sp(0, 18),
        }],
        18,
    );
    assert_eq!(run(src, node), "new (WRAPFN(location)).Foo()");
}

#[test]
fn new_arguments_are_still_walked() {
    let src = "new X(window)";
    let node = program(
        vec![Node::NewExpr {
            callee: Box::new(ident("X", 4, 5)),
            args: vec![ident("window", 6, 12)],
            span: sp(0, 13),
        }],
        13,
    );
    assert_eq!(run(src, node), "new X((WRAPFN(window)))");
}

#[test]
fn for_in_binding_and_iterable_are_skipped() {
    let src = "for(window in window){window}";
    let node = program(
        vec![Node::ForIn {
            body: Box::new(Node::Other {
                children: vec![ident("window", 22, 28)],
                span: sp(21, 29),
            }),
            span: sp(0, 29),
        }],
        29,
    );
    assert_eq!(run(src, node), "for(window in window){(WRAPFN(window))}");
}

#[test]
fn assignment_rhs_is_walked() {
    let src = "x = window";
    let node = program(
        vec![Node::AssignExpr {
            target: AssignTarget::Ident { name: b"x".to_vec(), span: sp(0, 1) },
            op: AssignOp::Assign,
            right: Box::new(ident("window", 4, 10)),
            span: sp(0, 10),
        }],
        10,
    );
    assert_eq!(run(src, node), "x = (WRAPFN(window))");
}

#[test]
fn array_destructuring_target_is_ignored() {
    let src = "[location] = [l]";
    let node = program(
        vec![Node::AssignExpr {
            target: AssignTarget::ArrayPat { span: sp(0, 10) },
            op: AssignOp::Assign,
            right: Box::new(leaf(13, 16)),
            span: sp(0, 16),
        }],
        16,
    );
    assert_eq!(run(src, node), src);
}

#[test]
fn catch_probe_is_inserted_when_capturing() {
    let src = "try{}catch(e){}";
    let node = program(
        vec![Node::TryStmt {
            catch: Some(CatchInfo { param: Some(b"e".to_vec()), body_span: sp(13, 15) }),
            children: vec![],
            span: sp(0, 15),
        }],
        15,
    );
    let mut config = cfg();
    config.capture_errors = true;
    assert_eq!(run_with(src, node, config).unwrap(), "try{}catch(e){$scramerr(e);}");
}

#[test]
fn catch_probe_is_off_by_default() {
    let src = "try{}catch(e){}";
    let node = program(
        vec![Node::TryStmt {
            catch: Some(CatchInfo { param: Some(b"e".to_vec()), body_span: sp(13, 15) }),
            children: vec![],
            span: sp(0, 15),
        }],
        15,
    );
    assert_eq!(run(src, node), src);
}

#[test]
fn scramitize_wraps_calls() {
    let src = "f()";
    let node = program(
        vec![Node::Call {
            callee: Box::new(ident("f", 0, 1)),
            args: vec![],
            optional: false,
            span: sp(0, 3),
        }],
        3,
    );
    let mut config = cfg();
    config.scramitize = true;
    assert_eq!(run_with(src, node, config).unwrap(), " $scramitize(f())");
}

#[test]
fn sourcemap_tag_carries_input_offset() {
    let src = "function f(){}";
    let node = program(
        vec![Node::Other {
            children: vec![Node::FunctionBody { children: vec![], span: sp(12, 14) }],
            span: sp(0, 14),
        }],
        14,
    );
    let mut config = cfg();
    config.do_sourcemaps = true;
    assert_eq!(
        run_with(src, node, config).unwrap(),
        "PUSHSOURCEMAPFN([],\"tag\");\nfunction f()/*scramtag 12 tag*/{}"
    );
}

#[test]
fn sourcemap_entry_records_original_slice() {
    let src = "debugger;";
    let node = program(vec![Node::Debugger { span: sp(0, 8) }], 9);
    let mut config = cfg();
    config.do_sourcemaps = true;
    assert_eq!(
        run_with(src, node, config).unwrap(),
        "PUSHSOURCEMAPFN([[\"debugger\",0,0],],\"tag\");\n;"
    );
}

#[test]
fn overlapping_replacements_fail_with_oob() {
    let src = "debugger;";
    let node = program(
        vec![Node::Debugger { span: sp(0, 8) }, Node::Debugger { span: sp(4, 9) }],
        9,
    );
    assert_eq!(run_with(src, node, cfg()), Err(RewriterError::Oob));
}

#[test]
fn out_of_range_span_fails_with_oob() {
    let src = "x";
    let node = program(vec![Node::Debugger { span: sp(0, 9) }], 1);
    assert_eq!(run_with(src, node, cfg()), Err(RewriterError::Oob));
}

#[test]
fn equal_offset_edits_collapse_to_the_first() {
    let src = "debugger;";
    let node = program(
        vec![Node::Debugger { span: sp(0, 8) }, Node::Debugger { span: sp(0, 9) }],
        9,
    );
    assert_eq!(run_with(src, node, cfg()).unwrap(), ";");
}

#[test]
fn unresolvable_specifier_is_left_unchanged() {
    let src = "import \"./a.js\"";
    let node = program(
        vec![Node::ImportDecl {
            source: SourceLit { value: b"./a.js".to_vec(), span: sp(7, 15) },
            children: vec![],
            span: sp(0, 15),
        }],
        15,
    );
    let js = src.as_bytes().to_vec();
    let base = b"not a url".to_vec();
    let out = rewrite(&js, &node, &base, &"tag".to_string(), &cfg(), &IdentityEncoder {}).unwrap();
    assert_eq!(String::from_utf8(out).unwrap(), src);
}

#[test]
fn safe_member_access_is_left_alone() {
    let src = "x.foo";
    let node = program(
        vec![Node::StaticMember {
            object: Box::new(ident("x", 0, 1)),
            property: b"foo".to_vec(),
            property_span: sp(2, 5),
            span: sp(0, 5),
        }],
        5,
    );
    assert_eq!(run(src, node), src);
}

#[test]
fn json_escape_handles_specials() {
    let input = b"a\"b\\c\x08\x0c\n\r\tz".to_vec();
    let out = json_escape_string(&input);
    assert_eq!(String::from_utf8(out).unwrap(), "a\\\"b\\\\c\\b\\f\\n\\r\\tz");
}

#[test]
fn json_escape_passes_other_bytes_through() {
    let input = "héllo".as_bytes().to_vec();
    let out = json_escape_string(&input);
    assert_eq!(out, "héllo".as_bytes().to_vec());
}

#[test]
fn empty_source_stays_empty() {
    let node = program(vec![], 0);
    assert_eq!(run("", node), "");
}

#[test]
fn assignment_operator_spellings() {
    for (op, spelled) in [
        (AssignOp::MulAssign, "*="),
        (AssignOp::ExpAssign, "**="),
        (AssignOp::UshrAssign, ">>>="),
        (AssignOp::NullishAssign, "??="),
    ] {
        let src = "location Z q";
        let node = program(
            vec![Node::AssignExpr {
                target: AssignTarget::Ident { name: b"location".to_vec(), span: sp(0, 8) },
                op,
                right: Box::new(leaf(11, 12)),
                span: sp(0, 12),
            }],
            12,
        );
        let expected = format!(
            "((t)=>$scramjet$tryset(location,\"{spelled}\",t)||(location {spelled}t))(q)"
        );
        assert_eq!(run(src, node), expected);
    }
}

#[test]
fn edits_apply_in_source_order() {
    let src = "window;this.x";
    let node = program(
        vec![
            ident("window", 0, 6),
            Node::StaticMember {
                object: Box::new(Node::This { span: sp(7, 11) }),
                property: b"x".to_vec(),
                property_span: sp(12, 13),
                span: sp(7, 13),
            },
        ],
        13,
    );
    assert_eq!(run(src, node), "(WRAPFN(window));(WRAPTHISFN(this)).x");
}

#[test]
fn sourcemap_entries_record_output_offsets() {
    let src = "window;debugger;";
    let node = program(
        vec![ident("window", 0, 6), Node::Debugger { span: sp(7, 15) }],
        16,
    );
    let mut config = cfg();
    config.do_sourcemaps = true;
    assert_eq!(
        run_with(src, node, config).unwrap(),
        "PUSHSOURCEMAPFN([[\"window\",0,16],[\"debugger\",17,17],],\"tag\");\n(WRAPFN(window));;"
    );
}
