//! The rewritten output must itself be parseable JavaScript: feed a few
//! rewritten programs back through the parser and require a clean parse.

use oxc::allocator::Allocator;
use oxc::parser::{ParseOptions, Parser};
use oxc::span::SourceType;

use rewriter::ast::{AssignOp, AssignTarget, Node};
use rewriter::config::Config;
use rewriter::rewrite::rewrite;
use rewriter::urls::IdentityEncoder;
use rewriter::Span;

fn sp(start: u32, end: u32) -> Span {
    Span { start, end }
}

fn cfg() -> Config {
    Config {
        prefix: "/x/".to_string(),
        wrapfn: "WRAPFN".to_string(),
        wrapthisfn: "WRAPTHISFN".to_string(),
        importfn: "IMPORTFN".to_string(),
        rewritefn: "REWRITEFN".to_string(),
        setrealmfn: "SETREALMFN".to_string(),
        metafn: "METAFN".to_string(),
        pushsourcemapfn: "PUSHSOURCEMAPFN".to_string(),
        capture_errors: false,
        scramitize: false,
        do_sourcemaps: false,
        strict_rewrites: false,
    }
}

fn run(src: &str, node: Node) -> String {
    let js = src.as_bytes().to_vec();
    let base = "https://h/".as_bytes().to_vec();
    let out = rewrite(&js, &node, &base, &"tag".to_string(), &cfg(), &IdentityEncoder {}).unwrap();
    String::from_utf8(out).unwrap()
}

fn parses_cleanly(src: &str) {
    let allocator = Allocator::default();
    let ret = Parser::new(&allocator, src, SourceType::default())
        .with_options(ParseOptions {
            allow_return_outside_function: true,
            ..ParseOptions::default()
        })
        .parse();
    assert!(!ret.panicked, "parser panicked on: {src}");
    assert!(ret.diagnostics.is_empty(), "diagnostics on: {src}");
}

#[test]
fn rewritten_member_access_parses() {
    let out = run(
        "window.foo",
        Node::Other {
            children: vec![Node::StaticMember {
                object: Box::new(Node::Ident { name: b"window".to_vec(), span: sp(0, 6) }),
                property: b"foo".to_vec(),
                property_span: sp(7, 10),
                span: sp(0, 10),
            }],
            span: sp(0, 10),
        },
    );
    parses_cleanly(&out);
}

#[test]
fn rewritten_eval_parses() {
    let out = run(
        "eval(x)",
        Node::Other {
            children: vec![Node::Call {
                callee: Box::new(Node::Ident { name: b"eval".to_vec(), span: sp(0, 4) }),
                args: vec![Node::Ident { name: b"x".to_vec(), span: sp(5, 6) }],
                optional: false,
                span: sp(0, 7),
            }],
            span: sp(0, 7),
        },
    );
    parses_cleanly(&out);
}

#[test]
fn rewritten_location_assignment_parses() {
    let out = run(
        "location = \"u\"",
        Node::Other {
            children: vec![Node::AssignExpr {
                target: AssignTarget::Ident { name: b"location".to_vec(), span: sp(0, 8) },
                op: AssignOp::Assign,
                right: Box::new(Node::Other { children: vec![], span: sp(11, 14) }),
                span: sp(0, 14),
            }],
            span: sp(0, 14),
        },
    );
    parses_cleanly(&out);
}
