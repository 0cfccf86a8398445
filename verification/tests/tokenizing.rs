//! Token-level behaviour: chunk invariance, character references,
//! recovery at end of input.

use xml5ever::tokenize_to;
use xml5ever::sinks::TokenLog;
use xml5ever::tokens::Token;
use xml5ever::tokenizer::XmlTokenizerOpts;

fn cv(s: &str) -> Vec<char> {
    s.chars().collect()
}

fn exact_opts() -> XmlTokenizerOpts {
    XmlTokenizerOpts { exact_errors: true, discard_bom: true, profile: false }
}

fn toks_of(chunks: Vec<&str>) -> Vec<Token> {
    let input: Vec<String> = chunks.iter().map(|s| s.to_string()).collect();
    let log = tokenize_to(TokenLog::new(), &input, exact_opts());
    log.tokens().clone()
}

#[test]
fn chunk_boundaries_do_not_change_tokens() {
    let doc = "<a b=\"v&amp;w\"><!--n--><![CDATA[x]]>t</a>";
    let whole = toks_of(vec![doc]);
    let split = toks_of(vec!["<a b=\"v&a", "mp;w\"><!--n--><![CDA", "TA[x]]>t</", "a>"]);
    assert_eq!(whole, split);
    let single_chars: Vec<String> = doc.chars().map(|c| c.to_string()).collect();
    let log = tokenize_to(TokenLog::new(), &single_chars, XmlTokenizerOpts::default());
    assert_eq!(&whole, log.tokens());
}

#[test]
fn simple_document_token_sequence() {
    let toks = toks_of(vec!["<a>x</a>"]);
    assert_eq!(
        toks,
        vec![
            Token::StartTag { prefix: None, local: cv("a"), attrs: vec![], self_closing: false },
            Token::Characters { text: cv("x") },
            Token::EndTag { name: cv("a") },
            Token::Eof,
        ]
    );
}

#[test]
fn prefixed_tag_name_is_split() {
    let toks = toks_of(vec!["<p:a/>"]);
    assert_eq!(
        toks[0],
        Token::StartTag {
            prefix: Some(cv("p")),
            local: cv("a"),
            attrs: vec![],
            self_closing: true,
        }
    );
}

#[test]
fn unknown_named_reference_kept_literally() {
    let toks = toks_of(vec!["<a>&zz;</a>"]);
    assert!(toks.contains(&Token::ParseError { desc: cv("unknown named character reference") }));
    assert!(toks.contains(&Token::Characters { text: cv("&zz;") }));
}

#[test]
fn numeric_reference_to_nul_is_replaced() {
    let toks = toks_of(vec!["<a>&#0;</a>"]);
    assert!(toks.contains(
        &Token::ParseError { desc: cv("numeric reference to a disallowed codepoint") }
    ));
    assert!(toks.contains(&Token::Characters { text: cv("\u{fffd}") }));
}

#[test]
fn hex_reference_decodes() {
    let toks = toks_of(vec!["<a>&#x41;</a>"]);
    assert!(toks.contains(&Token::Characters { text: cv("A") }));
}

#[test]
fn abandoned_reference_keeps_input() {
    let toks = toks_of(vec!["<a>a&b c</a>"]);
    assert!(toks.contains(&Token::ParseError { desc: cv("invalid character reference") }));
    assert!(toks.contains(&Token::Characters { text: cv("a&b c") }));
}

#[test]
fn unterminated_comment_is_forced_out_at_end() {
    let toks = toks_of(vec!["<!--x"]);
    assert_eq!(
        toks,
        vec![
            Token::ParseError { desc: cv("end of input in comment") },
            Token::Comment { text: cv("x") },
            Token::Eof,
        ]
    );
}

#[test]
fn unterminated_tag_is_emitted_best_effort() {
    let toks = toks_of(vec!["<a b=\"1"]);
    assert!(toks.contains(&Token::ParseError { desc: cv("end of input inside a tag") }));
    assert!(toks.contains(&Token::StartTag {
        prefix: None,
        local: cv("a"),
        attrs: vec![xml5ever::tokens::Attribute { name: cv("b"), value: cv("1") }],
        self_closing: false,
    }));
}

#[test]
fn cdata_is_not_decoded() {
    let toks = toks_of(vec!["<a><![CDATA[<b>&amp;]]></a>"]);
    assert!(toks.contains(&Token::Characters { text: cv("<b>&amp;") }));
}

#[test]
fn leading_byte_order_mark_is_discarded() {
    let with_bom = toks_of(vec!["\u{feff}<a/>"]);
    let without = toks_of(vec!["<a/>"]);
    assert_eq!(with_bom, without);
}

#[test]
fn approximate_errors_by_default() {
    let input = vec!["<a b=\"1\" b=\"2\"/>".to_string()];
    let log = tokenize_to(TokenLog::new(), &input, XmlTokenizerOpts::default());
    assert!(log.tokens().contains(&Token::ParseError { desc: cv("parse error") }));
    assert!(!log.tokens().iter().any(
        |t| matches!(t, Token::ParseError { desc } if desc == &cv("duplicate attribute"))
    ));
}

#[test]
fn cdata_at_top_level_is_refused() {
    let toks = toks_of(vec!["<![CDATA[y]]>"]);
    assert_eq!(
        toks,
        vec![
            Token::ParseError { desc: cv("CDATA section outside element content") },
            Token::Comment { text: cv("[CDATA[y]]") },
            Token::Eof,
        ]
    );
}

#[test]
fn cdata_after_root_is_refused() {
    let toks = toks_of(vec!["<a></a><![CDATA[ ]]>"]);
    assert!(toks.contains(
        &Token::ParseError { desc: cv("CDATA section outside element content") }
    ));
    assert!(!toks.iter().any(|t| matches!(t, Token::Characters { .. })));
}

#[test]
fn bom_is_kept_when_not_discarded() {
    let input = vec!["\u{feff}<a/>".to_string()];
    let opts = XmlTokenizerOpts {
        exact_errors: false,
        discard_bom: false,
        profile: false,
    };
    let log = tokenize_to(TokenLog::new(), &input, opts);
    assert!(log.tokens().contains(&Token::Characters { text: cv("\u{feff}") }));
}

#[test]
fn processing_instruction_target_and_data() {
    let toks = toks_of(vec!["<?go here?>"]);
    assert_eq!(
        toks[0],
        Token::ProcessingInstruction { target: cv("go"), data: cv("here") }
    );
}

#[test]
fn doctype_name_and_rest() {
    let toks = toks_of(vec!["<!doctype d PUBLIC \"p\">"]);
    assert_eq!(toks[0], Token::Doctype { name: cv("d"), data: cv("PUBLIC \"p\"") });
}

#[test]
fn empty_input_yields_only_eof() {
    let toks = toks_of(vec![""]);
    assert_eq!(toks, vec![Token::Eof]);
}

#[test]
fn retokenizing_emitted_text_reproduces_it() {
    let first = toks_of(vec!["<a>plain text</a>"]);
    assert_eq!(
        first,
        vec![
            Token::StartTag { prefix: None, local: cv("a"), attrs: vec![], self_closing: false },
            Token::Characters { text: cv("plain text") },
            Token::EndTag { name: cv("a") },
            Token::Eof,
        ]
    );
    let second = toks_of(vec!["<a>", "plain text", "</a>"]);
    assert_eq!(first, second);
}
