//! Structural tokens produced by the tokenizer and their mathematical views.
//!
//! All text is carried as `Vec<char>` so that every field has a direct
//! `Seq<char>` model; the spec-level mirror of each token is `SpecToken`.

use vstd::prelude::*;

verus! {

/// One attribute of a start tag: a name and a value, in source order.
#[derive(Clone, Debug, PartialEq, Eq)]
pub struct Attribute {
    pub name: Vec<char>,
    pub value: Vec<char>,
}

/// Mathematical model of an [`Attribute`].
#[verifier::ext_equal]
pub struct SpecAttr {
    pub name: Seq<char>,
    pub value: Seq<char>,
}

impl DeepView for Attribute {
    type V = SpecAttr;

    open spec fn deep_view(&self) -> SpecAttr {
        SpecAttr { name: self.name@, value: self.value@ }
    }
}

impl View for Attribute {
    type V = SpecAttr;

    open spec fn view(&self) -> SpecAttr {
        self.deep_view()
    }
}

/// One discrete lexical unit delivered to a token sink.
///
/// A start tag's name is split at the first colon into an optional
/// namespace prefix and a local name; an end tag keeps the name as written.
/// Character runs are coalesced opportunistically: callers must not assume
/// maximal coalescing, only that the concatenation is the document text.
#[derive(Clone, Debug, PartialEq, Eq)]
pub enum Token {
    StartTag { prefix: Option<Vec<char>>, local: Vec<char>, attrs: Vec<Attribute>, self_closing: bool },
    EndTag { name: Vec<char> },
    Comment { text: Vec<char> },
    Characters { text: Vec<char> },
    ProcessingInstruction { target: Vec<char>, data: Vec<char> },
    Doctype { name: Vec<char>, data: Vec<char> },
    ParseError { desc: Vec<char> },
    Eof,
}

/// Mathematical model of a [`Token`].
#[verifier::ext_equal]
pub enum SpecToken {
    StartTag { prefix: Option<Seq<char>>, local: Seq<char>, attrs: Seq<SpecAttr>, self_closing: bool },
    EndTag { name: Seq<char> },
    Comment { text: Seq<char> },
    Characters { text: Seq<char> },
    ProcessingInstruction { target: Seq<char>, data: Seq<char> },
    Doctype { name: Seq<char>, data: Seq<char> },
    ParseError { desc: Seq<char> },
    Eof,
}

impl DeepView for Token {
    type V = SpecToken;

    open spec fn deep_view(&self) -> SpecToken {
        self.view()
    }
}

impl View for Token {
    type V = SpecToken;

    open spec fn view(&self) -> SpecToken {
        match self {
            Token::StartTag { prefix, local, attrs, self_closing } => SpecToken::StartTag {
                prefix: match prefix {
                    Some(p) => Some(p@),
                    None => None,
                },
                local: local@,
                attrs: attrs.deep_view(),
                self_closing: *self_closing,
            },
            Token::EndTag { name } => SpecToken::EndTag { name: name@ },
            Token::Comment { text } => SpecToken::Comment { text: text@ },
            Token::Characters { text } => SpecToken::Characters { text: text@ },
            Token::ProcessingInstruction { target, data } => SpecToken::ProcessingInstruction {
                target: target@,
                data: data@,
            },
            Token::Doctype { name, data } => SpecToken::Doctype { name: name@, data: data@ },
            Token::ParseError { desc } => SpecToken::ParseError { desc: desc@ },
            Token::Eof => SpecToken::Eof,
        }
    }
}

} // verus!
