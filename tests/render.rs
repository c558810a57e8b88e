use termdoc::doc::{format_signature, heading, render_docs, Doc, FnDoc, ModDoc};
use termdoc::foo::{foo, BAR};
use termdoc::markdown::{format_markdown, render_events, MarkdownError, MdEvent, MdTag};
use termdoc::text::center;
use termdoc::walker::{
    collect_docs, decl_to_doc, format_doc, strip_doc_literal, Attr, AttrToken, Decl, DeclKind,
    Visitor,
};

fn doc_attr(text: &str) -> Attr {
    Attr {
        outer: true,
        is_doc: true,
        tokens: vec![AttrToken::Other, AttrToken::Literal(format!("{:?}", text))],
    }
}

fn decl(kind: DeclKind, name: &str, docs: &[&str], children: Vec<Decl>) -> Decl {
    Decl {
        kind,
        name: name.to_string(),
        attrs: docs.iter().map(|d| doc_attr(d)).collect(),
        children,
    }
}

fn dashes(n: usize) -> String {
    "-".repeat(n)
}

fn sample_tree() -> Vec<Decl> {
    vec![
        decl(
            DeclKind::Module,
            "outer",
            &[" Outer module."],
            vec![
                decl(DeclKind::Function, "first", &[" First."], vec![]),
                decl(
                    DeclKind::Module,
                    "inner",
                    &[],
                    vec![decl(DeclKind::Function, "deep", &[], vec![])],
                ),
            ],
        ),
        decl(
            DeclKind::Function,
            "main",
            &[],
            vec![decl(DeclKind::Function, "helper", &[], vec![])],
        ),
    ]
}

fn labels(docs: &[Doc]) -> Vec<String> {
    docs.iter()
        .map(|d| match d {
            Doc::FnDoc(f) => f.signature.clone(),
            Doc::ModDoc(m) => m.ident.clone(),
        })
        .collect()
}

#[test]
fn undocumented_function_block() {
    let d = decl(DeclKind::Function, "main", &[], vec![]);
    let docs = collect_docs(&vec![d]);
    assert_eq!(docs.len(), 1);
    let block = docs[0].render().unwrap();
    let expected = format!("{}function{}\n\nfn main()\n\n\n\n", dashes(36), dashes(36));
    assert_eq!(block, expected);
}

#[test]
fn module_heading_is_centred() {
    let d = decl(DeclKind::Module, "foo", &[], vec![]);
    let block = decl_to_doc(&d).render().unwrap();
    let head = format!("{}module foo{}", dashes(35), dashes(35));
    assert_eq!(head.chars().count(), 80);
    assert_eq!(block, format!("{}\n\n\n\n", head));
}

#[test]
fn paragraph_is_copied_verbatim() {
    let out = format_markdown("Hello, this is the main doc!").unwrap();
    assert_eq!(out, "Hello, this is the main doc!\n\n");
    assert!(!out.contains('\x1b'));
}

#[test]
fn fenced_code_is_highlighted() {
    let out = format_markdown("```\nlet x = 1;\n```\n").unwrap();
    let first_colour = out.find("\x1b[38;2;").expect("a 24-bit colour escape");
    assert_eq!(out.matches("\x1b[0m").count(), 1);
    let reset = out.find("\x1b[0m").unwrap();
    assert!(first_colour < reset);
    assert!(out.ends_with("\x1b[0m\n\n"));
    assert!(out.contains("let"));
    assert_ne!(out, "let x = 1;\n\x1b[0m\n\n");
}

#[test]
fn level_two_heading_marker() {
    let out = format_markdown("## Examples").unwrap();
    assert_eq!(out, "\n\n## Examples\n\n");
}

#[test]
fn level_four_heading_marker() {
    let out = format_markdown("#### A level 4 heading").unwrap();
    assert_eq!(out, "\n\n#### A level 4 heading\n\n");
}

#[test]
fn walk_is_deterministic() {
    let first = collect_docs(&sample_tree());
    let second = collect_docs(&sample_tree());
    assert_eq!(first.len(), second.len());
    assert_eq!(labels(&first), labels(&second));
}

#[test]
fn walk_is_pre_order() {
    let docs = collect_docs(&sample_tree());
    assert_eq!(
        labels(&docs),
        vec![
            "outer".to_string(),
            "fn first()\n\n".to_string(),
            "inner".to_string(),
            "fn deep()\n\n".to_string(),
            "fn main()\n\n".to_string(),
            "fn helper()\n\n".to_string(),
        ]
    );
}

#[test]
fn literal_without_leading_space_loses_first_char() {
    assert_eq!(strip_doc_literal("\"Foo\""), "oo");
    let attrs = vec![Attr { outer: true, is_doc: true, tokens: vec![AttrToken::Literal("\"Foo\"".to_string())] }];
    assert_eq!(format_doc(&attrs), "oo\n");
}

#[test]
fn literal_with_leading_space() {
    assert_eq!(strip_doc_literal("\" Foo\""), "Foo");
    assert_eq!(strip_doc_literal("\" \""), "");
    assert_eq!(strip_doc_literal("\"\""), "");
    assert_eq!(strip_doc_literal("5"), "");
}

#[test]
fn doc_text_keeps_outer_literals_in_order() {
    let attrs = vec![
        doc_attr(" First line."),
        Attr { outer: false, is_doc: true, tokens: vec![AttrToken::Literal("\" Inner.\"".to_string())] },
        Attr { outer: true, is_doc: true, tokens: vec![AttrToken::Other] },
        doc_attr(""),
        doc_attr(" Last line."),
    ];
    assert_eq!(format_doc(&attrs), "First line.\n\nLast line.\n");
}

#[test]
fn signature_line() {
    assert_eq!(format_signature("find_answer"), "fn find_answer()\n\n");
}

#[test]
fn centring_puts_odd_padding_right() {
    assert_eq!(center("abc", 6, "-"), "-abc--");
    assert_eq!(center("abcdef", 4, "-"), "abcdef");
    assert_eq!(heading("function"), format!("{}function{}", dashes(36), dashes(36)));
}

#[test]
fn inline_code_is_unsupported() {
    assert_eq!(format_markdown("Use `x` here."), Err(MarkdownError::Unsupported));
}

#[test]
fn line_break_is_unsupported() {
    assert_eq!(format_markdown("one\ntwo"), Err(MarkdownError::Unsupported));
}

#[test]
fn list_is_unsupported() {
    assert_eq!(format_markdown("- item"), Err(MarkdownError::Unsupported));
}

#[test]
fn empty_doc_renders_empty() {
    assert_eq!(format_markdown(""), Ok(String::new()));
}

#[test]
fn events_route_text_by_state() {
    let events = vec![
        MdEvent::Start(MdTag::Paragraph),
        MdEvent::Text("Intro".to_string()),
        MdEvent::End(MdTag::Paragraph),
        MdEvent::Start(MdTag::Heading(3)),
        MdEvent::Text("Title".to_string()),
        MdEvent::End(MdTag::Heading(3)),
    ];
    assert_eq!(render_events(&events).unwrap(), "Intro\n\n\n\n### Title\n\n");
    let bad = vec![MdEvent::Text("a".to_string()), MdEvent::Other];
    assert_eq!(render_events(&bad), Err(MarkdownError::Unsupported));
    let bad_tag = vec![MdEvent::Start(MdTag::Other)];
    assert_eq!(render_events(&bad_tag), Err(MarkdownError::Unsupported));
}

#[test]
fn code_block_buffers_paragraph_breaks() {
    let events = vec![
        MdEvent::Start(MdTag::CodeBlock),
        MdEvent::Text("a".to_string()),
        MdEvent::End(MdTag::Paragraph),
        MdEvent::End(MdTag::CodeBlock),
    ];
    let out = render_events(&events).unwrap();
    assert!(out.starts_with('\x1b'));
    assert_eq!(out.matches("\x1b[0m").count(), 1);
    assert!(out.ends_with("\x1b[0m\n\n"));
}

#[test]
fn documented_function_and_module_blocks() {
    let tree = vec![decl(
        DeclKind::Module,
        "m",
        &[" Module doc."],
        vec![decl(DeclKind::Function, "f", &[" ## Examples"], vec![])],
    )];
    let docs = collect_docs(&tree);
    let out = render_docs(&docs).unwrap();
    let expected = format!(
        "{}module m{}\n\nModule doc.\n\n\n\n{}function{}\n\nfn f()\n\n\n\n## Examples\n\n\n\n",
        dashes(36),
        dashes(36),
        dashes(36),
        dashes(36)
    );
    assert_eq!(out, expected);
}

#[test]
fn render_docs_fails_on_unsupported() {
    let docs = vec![
        Doc::FnDoc(FnDoc { signature: "fn a()\n\n".to_string(), doc: "ok".to_string() }),
        Doc::ModDoc(ModDoc { ident: "b".to_string(), doc: "`bad`".to_string() }),
    ];
    assert_eq!(render_docs(&docs), Err(MarkdownError::Unsupported));
}

#[test]
fn visitor_collects_into_existing_docs() {
    let mut v = Visitor::new();
    v.visit_decl(&decl(DeclKind::Function, "a", &[], vec![]));
    v.visit_decl(&decl(DeclKind::Module, "b", &[], vec![]));
    assert_eq!(labels(&v.docs), vec!["fn a()\n\n".to_string(), "b".to_string()]);
}

#[test]
fn sample_module() {
    foo();
    assert_eq!(BAR, 42);
}

#[test]
fn doc_with_headings_and_indented_code() {
    let attrs: Vec<Attr> = [
        " Hello, this is the main doc!",
        "",
        " ## Examples",
        "",
        "     let mut x = {",
        "         1 + 1",
        "     };",
        "",
        " #### A level 4 heading (example two):",
        "",
        "     mod two {}",
        "",
    ]
    .iter()
    .map(|line| doc_attr(line))
    .collect();
    let text = format_doc(&attrs);
    assert!(text.starts_with("Hello, this is the main doc!\n\n## Examples\n\n    let mut x = {\n"));
    let out = format_markdown(&text).unwrap();
    assert!(out.starts_with("Hello, this is the main doc!\n\n\n\n## Examples\n\n"));
    assert!(out.contains("\x1b[0m\n\n\n\n#### A level 4 heading (example two):\n\n"));
    assert_eq!(out.matches("\x1b[0m").count(), 2);
    assert!(out.ends_with("\x1b[0m\n\n"));
}

#[test]
fn non_doc_attributes_add_nothing() {
    let attrs = vec![
        Attr { outer: true, is_doc: false, tokens: vec![AttrToken::Other] },
        Attr {
            outer: true,
            is_doc: false,
            tokens: vec![AttrToken::Other, AttrToken::Literal("\"why\"".to_string())],
        },
        doc_attr(" Foo"),
    ];
    assert_eq!(format_doc(&attrs), "Foo\n");
    let int_attr = vec![Attr {
        outer: true,
        is_doc: false,
        tokens: vec![AttrToken::Other, AttrToken::Literal("1".to_string())],
    }];
    assert_eq!(format_doc(&int_attr), "");
}
