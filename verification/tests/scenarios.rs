//! Tree-level scenarios: whole documents in, recorded mutation
//! operations out.

use xml5ever::parse_to;
use xml5ever::parse;
use xml5ever::sinks::DomLog;
use xml5ever::sinks::DomOp;
use xml5ever::tokens::Attribute;
use xml5ever::tokenizer::XmlTokenizerOpts;

fn cv(s: &str) -> Vec<char> {
    s.chars().collect()
}

fn exact_opts() -> XmlTokenizerOpts {
    XmlTokenizerOpts { exact_errors: true, discard_bom: true, profile: false }
}

fn run(doc: &str) -> Vec<DomOp> {
    let input = vec![doc.to_string()];
    let log = parse_to(DomLog::new(), &input, exact_opts());
    log.ops_log().clone()
}

fn error_count(ops: &[DomOp]) -> usize {
    ops.iter().filter(|op| matches!(op, DomOp::ReportError { .. })).count()
}

#[test]
fn nested_elements_with_text() {
    let ops = run("<a><b>x</b></a>");
    assert_eq!(
        ops,
        vec![
            DomOp::Create { name: cv("a"), ns: cv(""), attrs: vec![] },
            DomOp::AppendElement { parent: None, child: 0 },
            DomOp::Create { name: cv("b"), ns: cv(""), attrs: vec![] },
            DomOp::AppendElement { parent: Some(0), child: 1 },
            DomOp::AppendText { parent: Some(1), text: cv("x") },
            DomOp::CloseElement { handle: 1 },
            DomOp::CloseElement { handle: 0 },
            DomOp::EndDoc,
        ]
    );
}

#[test]
fn missing_end_tag_is_implicitly_closed() {
    let ops = run("<a><b>x</a>");
    assert_eq!(
        ops,
        vec![
            DomOp::Create { name: cv("a"), ns: cv(""), attrs: vec![] },
            DomOp::AppendElement { parent: None, child: 0 },
            DomOp::Create { name: cv("b"), ns: cv(""), attrs: vec![] },
            DomOp::AppendElement { parent: Some(0), child: 1 },
            DomOp::AppendText { parent: Some(1), text: cv("x") },
            DomOp::ReportError { desc: cv("unclosed element") },
            DomOp::CloseElement { handle: 1 },
            DomOp::CloseElement { handle: 0 },
            DomOp::EndDoc,
        ]
    );
    assert_eq!(error_count(&ops), 1);
}

#[test]
fn character_references_decode_into_text() {
    let ops = run("<a>&amp;&#65;</a>");
    assert_eq!(
        ops,
        vec![
            DomOp::Create { name: cv("a"), ns: cv(""), attrs: vec![] },
            DomOp::AppendElement { parent: None, child: 0 },
            DomOp::AppendText { parent: Some(0), text: cv("&A") },
            DomOp::CloseElement { handle: 0 },
            DomOp::EndDoc,
        ]
    );
}

#[test]
fn unmatched_end_tag_is_reported_and_ignored() {
    let ops = run("</a>");
    assert_eq!(
        ops,
        vec![
            DomOp::ReportError { desc: cv("unmatched end tag") },
            DomOp::EndDoc,
        ]
    );
    assert!(!ops.iter().any(|op| matches!(op, DomOp::Create { .. })));
}

#[test]
fn comment_then_self_closing_element() {
    let ops = run("<!-- c --><a/>");
    assert_eq!(
        ops,
        vec![
            DomOp::AppendComment { parent: None, text: cv(" c ") },
            DomOp::Create { name: cv("a"), ns: cv(""), attrs: vec![] },
            DomOp::AppendElement { parent: None, child: 0 },
            DomOp::CloseElement { handle: 0 },
            DomOp::EndDoc,
        ]
    );
    assert_eq!(error_count(&ops), 0);
}

#[test]
fn duplicate_attribute_first_occurrence_wins() {
    let ops = run("<a b=\"1\" b=\"2\"/>");
    assert_eq!(
        ops,
        vec![
            DomOp::ReportError { desc: cv("duplicate attribute") },
            DomOp::Create {
                name: cv("a"),
                ns: cv(""),
                attrs: vec![Attribute { name: cv("b"), value: cv("1") }],
            },
            DomOp::AppendElement { parent: None, child: 0 },
            DomOp::CloseElement { handle: 0 },
            DomOp::EndDoc,
        ]
    );
    assert_eq!(error_count(&ops), 1);
}

#[test]
fn chunked_and_whole_input_build_the_same_tree() {
    let whole = run("<a><b>x</b></a>");
    let chunks: Vec<String> =
        vec!["<a".to_string(), "><b>x".to_string(), "</b".to_string(), "></a>".to_string()];
    let log = parse_to(DomLog::new(), &chunks, exact_opts());
    assert_eq!(&whole, log.ops_log());
}

#[test]
fn top_level_cdata_becomes_a_reported_comment() {
    let ops = run("<![CDATA[ ]]><a/>");
    assert!(error_count(&ops) >= 1);
    assert!(!ops.iter().any(|op| matches!(op, DomOp::AppendText { .. })));
    assert!(ops.iter().any(|op| matches!(op, DomOp::AppendComment { .. })));
}

#[test]
fn stack_balance_on_unclosed_elements() {
    let ops = run("<a><b><c>");
    let creates = ops.iter().filter(|op| matches!(op, DomOp::Create { .. })).count();
    let closes = ops.iter().filter(|op| matches!(op, DomOp::CloseElement { .. })).count();
    assert_eq!(creates, 3);
    assert_eq!(creates, closes);
    assert_eq!(error_count(&ops), 3);
}

#[test]
fn namespace_declarations_resolve() {
    let ops = run("<a xmlns=\"u\"><p:c xmlns:p=\"v\"/></a>");
    match &ops[0] {
        DomOp::Create { name, ns, .. } => {
            assert_eq!(name, &cv("a"));
            assert_eq!(ns, &cv("u"));
        },
        other => panic!("unexpected op {:?}", other),
    }
    match &ops[2] {
        DomOp::Create { name, ns, .. } => {
            assert_eq!(name, &cv("p:c"));
            assert_eq!(ns, &cv("v"));
        },
        other => panic!("unexpected op {:?}", other),
    }
    assert_eq!(error_count(&ops), 0);
}

#[test]
fn unbound_prefix_is_reported() {
    let ops = run("<q:z/>");
    assert_eq!(ops[0], DomOp::ReportError { desc: cv("unbound namespace prefix") });
    match &ops[1] {
        DomOp::Create { name, ns, .. } => {
            assert_eq!(name, &cv("q:z"));
            assert_eq!(ns, &cv(""));
        },
        other => panic!("unexpected op {:?}", other),
    }
}

#[test]
fn xml_declaration_becomes_metadata() {
    let ops = run("<?xml version=\"1.0\"?><a/>");
    assert_eq!(ops[0], DomOp::DocMeta { data: cv("version=\"1.0\"") });
    assert_eq!(error_count(&ops), 0);
}

#[test]
fn doctype_before_root_is_kept() {
    let ops = run("<!DOCTYPE html><a/>");
    assert_eq!(ops[0], DomOp::AppendDoctype { name: cv("html"), data: cv("") });
    assert_eq!(error_count(&ops), 0);
}

#[test]
fn doctype_after_root_is_reported_and_dropped() {
    let ops = run("<a/><!DOCTYPE x>");
    assert_eq!(error_count(&ops), 1);
    assert!(!ops.iter().any(|op| matches!(op, DomOp::AppendDoctype { .. })));
}

#[test]
fn nonwhitespace_text_after_root_is_reported() {
    let ops = run("<a/>z");
    assert_eq!(error_count(&ops), 1);
    assert!(!ops.iter().any(|op| matches!(op, DomOp::AppendText { .. })));
}

#[test]
fn whitespace_outside_root_is_kept() {
    let ops = run("<a/> \n");
    assert_eq!(error_count(&ops), 0);
    assert!(ops.iter().any(|op| matches!(op, DomOp::AppendText { parent: None, .. })));
}

#[test]
fn parse_returns_the_recording_sink() {
    let input = vec!["<a/>".to_string()];
    let dom: DomLog = parse(&input, XmlTokenizerOpts::default());
    assert!(dom.ops_log().iter().any(|op| matches!(op, DomOp::Create { .. })));
}

#[test]
fn one_input_wraps_a_single_chunk() {
    let v = xml5ever::one_input("<a/>".to_string());
    assert_eq!(v.len(), 1);
    assert_eq!(v[0], "<a/>");
}

#[derive(Clone)]
enum Node {
    El(usize),
    Text(String),
    Comment(String),
}

fn write_node(n: &Node, names: &Vec<String>, children: &Vec<Vec<Node>>, out: &mut String) {
    match n {
        Node::El(i) => {
            out.push('<');
            out.push_str(&names[*i]);
            out.push('>');
            for c in &children[*i] {
                write_node(c, names, children, out);
            }
            out.push_str("</");
            out.push_str(&names[*i]);
            out.push('>');
        },
        Node::Text(t) => out.push_str(t),
        Node::Comment(t) => {
            out.push_str("<!--");
            out.push_str(t);
            out.push_str("-->");
        },
    }
}

/// Rebuilds the document text of an error-free recorded tree.
fn serialize(ops: &[DomOp]) -> String {
    let mut names: Vec<String> = Vec::new();
    let mut children: Vec<Vec<Node>> = Vec::new();
    let mut roots: Vec<Node> = Vec::new();
    for op in ops {
        match op {
            DomOp::Create { name, .. } => {
                names.push(name.iter().collect());
                children.push(Vec::new());
            },
            DomOp::AppendElement { parent, child } => {
                match parent {
                    Some(p) => children[*p].push(Node::El(*child)),
                    None => roots.push(Node::El(*child)),
                }
            },
            DomOp::AppendText { parent, text } => {
                let t: String = text.iter().collect();
                match parent {
                    Some(p) => children[*p].push(Node::Text(t)),
                    None => roots.push(Node::Text(t)),
                }
            },
            DomOp::AppendComment { parent, text } => {
                let t: String = text.iter().collect();
                match parent {
                    Some(p) => children[*p].push(Node::Comment(t)),
                    None => roots.push(Node::Comment(t)),
                }
            },
            _ => {},
        }
    }
    let mut out = String::new();
    for r in &roots {
        write_node(r, &names, &children, &mut out);
    }
    out
}

#[test]
fn reparsing_the_serialized_tree_rebuilds_it() {
    let ops = run("<a><b>x</b><c>y</c></a>");
    assert_eq!(error_count(&ops), 0);
    let text = serialize(&ops);
    assert_eq!(text, "<a><b>x</b><c>y</c></a>");
    let ops2 = run(&text);
    assert_eq!(ops, ops2);
}
