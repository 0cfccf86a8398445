//! The tokenizer's lexical modes.

use vstd::prelude::*;

verus! {

/// Where a character reference was entered from, and so where its
/// expansion (or its literal fallback text) is written back to.
#[derive(Clone, Copy, PartialEq, Eq, Debug)]
pub enum CharRefCtx {
    InData,
    InDq,
    InSq,
    InUq,
}

/// The enumerated lexical mode of the tokenizer.
///
/// `CdataPrefix` and `DoctypeKw` count how many characters of the fixed
/// markers `CDATA[` and `OCTYPE` have matched so far, so that lookahead
/// never needs re-scanning across chunk boundaries.
#[derive(Clone, Copy, PartialEq, Eq, Debug)]
pub enum XmlState {
    Data,
    TagOpen,
    EndTagOpen,
    TagName,
    EndTagName,
    BeforeAttrName,
    AttrName,
    AfterAttrName,
    BeforeAttrValue,
    AttrValueDq,
    AttrValueSq,
    AttrValueUq,
    AfterAttrValueQ,
    SelfClosing,
    BangOpen,
    BangDash,
    CommentStart,
    CommentStartDash,
    Comment,
    CommentEndDash,
    CommentEnd,
    CdataPrefix { matched: u8 },
    Cdata,
    CdataBracket,
    CdataEnd,
    DoctypeKw { matched: u8 },
    BeforeDoctypeName,
    DoctypeName,
    DoctypeRest,
    BogusComment,
    PiTarget,
    PiData,
    PiMaybeEnd,
    CharRefStart { ctx: CharRefCtx },
    CharRefNamed { ctx: CharRefCtx },
    CharRefNumStart { ctx: CharRefCtx },
    CharRefHexStart { ctx: CharRefCtx },
    CharRefDigits { ctx: CharRefCtx, hex: bool },
}

} // verus!
