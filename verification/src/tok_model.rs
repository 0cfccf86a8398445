//! The mathematical model of the tokenizer.
//!
//! [`TokModel`] is the abstract state: the lexical mode plus the scratch
//! buffers of the token under construction.  [`tok_step`] says what one
//! input character does to that state and which tokens it emits;
//! [`tok_feed`] folds it over a chunk; [`tok_end`] says what end of input
//! forces out.  The executable tokenizer is proved to follow these
//! functions exactly, so every property of the token stream can be read
//! off this file alone.

use vstd::prelude::*;
use crate::states::CharRefCtx;
use crate::states::XmlState;
use crate::tokens::SpecAttr;
use crate::tokens::SpecToken;
use crate::util::digit_value;
use crate::util::is_alnum;
use crate::util::is_digit;
use crate::util::is_hex_digit;
use crate::util::is_name_start;
use crate::util::is_ws;
use crate::charref::named_expansion;
use crate::charref::numeric_expansion;

verus! {

/// Abstract tokenizer state: lexical mode and scratch buffers.
#[verifier::ext_equal]
pub struct TokModel {
    pub state: XmlState,
    /// Pending run of character data, flushed at the next structural point.
    pub chars: Seq<char>,
    /// Name of the tag under construction, as written.
    pub tag_name: Seq<char>,
    /// Whether the tag under construction is an end tag.
    pub end_tag: bool,
    pub self_closing: bool,
    /// Attributes finished so far on the tag under construction.
    pub attrs: Seq<SpecAttr>,
    pub attr_name: Seq<char>,
    pub attr_value: Seq<char>,
    pub comment: Seq<char>,
    pub pi_target: Seq<char>,
    pub pi_data: Seq<char>,
    pub doctype_name: Seq<char>,
    pub doctype_data: Seq<char>,
    /// Raw characters of the reference after `&`, kept for literal fallback.
    pub ref_buf: Seq<char>,
    /// Accumulated numeric reference value, saturated above U+10FFFF.
    pub ref_value: u32,
    /// Elements opened and not yet closed, as the lexical level sees
    /// them (one up per non-self-closing start tag emitted, one down per
    /// end tag emitted, never below zero).  A CDATA section is only
    /// recognized while it is positive: element content.
    pub depth: usize,
    /// Whether any input character has been seen yet.
    pub started: bool,
    /// Whether a leading byte-order mark is discarded.
    pub discard_bom: bool,
    /// Whether parse errors carry precise descriptions; otherwise each
    /// carries one fixed approximate description.
    pub exact_errors: bool,
}

/// Result of a model transition: the new state and the emitted tokens.
#[verifier::ext_equal]
pub struct StepRes {
    pub st: TokModel,
    pub out: Seq<SpecToken>,
}

/// The tokenizer's initial state.
pub open spec fn tok_init(discard_bom: bool, exact_errors: bool) -> TokModel {
    TokModel {
        state: XmlState::Data,
        chars: Seq::empty(),
        tag_name: Seq::empty(),
        end_tag: false,
        self_closing: false,
        attrs: Seq::empty(),
        attr_name: Seq::empty(),
        attr_value: Seq::empty(),
        comment: Seq::empty(),
        pi_target: Seq::empty(),
        pi_data: Seq::empty(),
        doctype_name: Seq::empty(),
        doctype_data: Seq::empty(),
        ref_buf: Seq::empty(),
        ref_value: 0,
        depth: 0,
        started: false,
        discard_bom,
        exact_errors,
    }
}

pub open spec fn mk(st: TokModel, out: Seq<SpecToken>) -> StepRes {
    StepRes { st, out }
}

pub open spec fn err(desc: Seq<char>) -> SpecToken {
    SpecToken::ParseError { desc }
}

/// The description an error carries: the precise one when exact errors
/// were asked for, one fixed approximate description otherwise.
pub open spec fn desc_of(exact: bool, precise: Seq<char>) -> Seq<char> {
    if exact {
        precise
    } else {
        "parse error"@
    }
}

/// True when the tag under construction already has an attribute `name`.
pub open spec fn has_attr(attrs: Seq<SpecAttr>, name: Seq<char>) -> bool {
    exists|i: int| 0 <= i < attrs.len() && (#[trigger] attrs[i]).name == name
}

/// Index of the first colon in `s` at or after `i`, or -1.
pub open spec fn first_colon_from(s: Seq<char>, i: int) -> int
    decreases s.len() - i,
{
    if i < 0 || i >= s.len() {
        -1
    } else if s[i] == ':' {
        i
    } else {
        first_colon_from(s, i + 1)
    }
}

/// Splits a qualified name at its first colon into prefix and local part.
pub open spec fn split_name(s: Seq<char>) -> (Option<Seq<char>>, Seq<char>) {
    let i = first_colon_from(s, 0);
    if i >= 0 {
        (Some(s.take(i)), s.skip(i + 1))
    } else {
        (None, s)
    }
}

/// One more lexically open element, saturating.
pub open spec fn depth_inc(d: usize) -> usize {
    if d == usize::MAX {
        d
    } else {
        (d + 1) as usize
    }
}

/// One less lexically open element, never below zero.
pub open spec fn depth_dec(d: usize) -> usize {
    if d == 0 {
        0
    } else {
        (d - 1) as usize
    }
}

/// Commits the attribute under construction: duplicate names are dropped
/// with a parse error, the first occurrence winning.
pub open spec fn finish_attr(m: TokModel) -> StepRes {
    if m.attr_name.len() == 0 {
        mk(m, Seq::empty())
    } else if has_attr(m.attrs, m.attr_name) {
        mk(
            TokModel { attr_name: Seq::empty(), attr_value: Seq::empty(), ..m },
            seq![err(desc_of(m.exact_errors, "duplicate attribute"@))],
        )
    } else {
        mk(
            TokModel {
                attrs: m.attrs.push(SpecAttr { name: m.attr_name, value: m.attr_value }),
                attr_name: Seq::empty(),
                attr_value: Seq::empty(),
                ..m
            },
            Seq::empty(),
        )
    }
}

/// Emits the tag under construction and returns to `Data`.
pub open spec fn emit_tag(m: TokModel) -> StepRes {
    let cleared = TokModel {
        state: XmlState::Data,
        tag_name: Seq::empty(),
        end_tag: false,
        self_closing: false,
        attrs: Seq::empty(),
        attr_name: Seq::empty(),
        attr_value: Seq::empty(),
        depth: if m.end_tag {
            depth_dec(m.depth)
        } else if m.self_closing {
            m.depth
        } else {
            depth_inc(m.depth)
        },
        ..m
    };
    if m.end_tag {
        let errs = if m.attrs.len() > 0 {
            seq![err(desc_of(m.exact_errors, "attributes on an end tag"@))]
        } else {
            Seq::<SpecToken>::empty()
        };
        let errs2 = if m.self_closing {
            errs + seq![err(desc_of(m.exact_errors, "self-closing end tag"@))]
        } else {
            errs
        };
        mk(cleared, errs2 + seq![SpecToken::EndTag { name: m.tag_name }])
    } else {
        let pl = split_name(m.tag_name);
        mk(
            cleared,
            seq![
                SpecToken::StartTag {
                    prefix: pl.0,
                    local: pl.1,
                    attrs: m.attrs,
                    self_closing: m.self_closing,
                },
            ],
        )
    }
}

/// The lexical mode a finished or abandoned reference returns to.
pub open spec fn ctx_state(ctx: CharRefCtx) -> XmlState {
    match ctx {
        CharRefCtx::InData => XmlState::Data,
        CharRefCtx::InDq => XmlState::AttrValueDq,
        CharRefCtx::InSq => XmlState::AttrValueSq,
        CharRefCtx::InUq => XmlState::AttrValueUq,
    }
}

/// Appends text to the buffer the context writes into: the character run
/// for data, the attribute value otherwise.
pub open spec fn app_ctx(m: TokModel, ctx: CharRefCtx, s: Seq<char>) -> TokModel {
    match ctx {
        CharRefCtx::InData => TokModel { chars: m.chars + s, ..m },
        _ => TokModel { attr_value: m.attr_value + s, ..m },
    }
}

/// One character in `Data` mode.
pub open spec fn data_step(m: TokModel, c: char) -> StepRes {
    if c == '<' {
        if m.chars.len() > 0 {
            mk(
                TokModel { state: XmlState::TagOpen, chars: Seq::empty(), ..m },
                seq![SpecToken::Characters { text: m.chars }],
            )
        } else {
            mk(TokModel { state: XmlState::TagOpen, ..m }, Seq::empty())
        }
    } else if c == '&' {
        mk(
            TokModel {
                state: XmlState::CharRefStart { ctx: CharRefCtx::InData },
                ref_buf: Seq::empty(),
                ref_value: 0,
                ..m
            },
            Seq::empty(),
        )
    } else {
        mk(TokModel { state: XmlState::Data, chars: m.chars.push(c), ..m }, Seq::empty())
    }
}

/// One character in a quoted attribute value (`q` is the closing quote).
pub open spec fn quoted_value_step(m: TokModel, c: char, q: char, ctx: CharRefCtx) -> StepRes {
    if c == q {
        let f = finish_attr(m);
        mk(TokModel { state: XmlState::AfterAttrValueQ, ..f.st }, f.out)
    } else if c == '&' {
        mk(
            TokModel {
                state: XmlState::CharRefStart { ctx },
                ref_buf: Seq::empty(),
                ref_value: 0,
                ..m
            },
            Seq::empty(),
        )
    } else {
        mk(
            TokModel { state: ctx_state(ctx), attr_value: m.attr_value.push(c), ..m },
            Seq::empty(),
        )
    }
}

/// One character in an unquoted attribute value.
pub open spec fn unquoted_value_step(m: TokModel, c: char) -> StepRes {
    if is_ws(c) {
        let f = finish_attr(m);
        mk(TokModel { state: XmlState::BeforeAttrName, ..f.st }, f.out)
    } else if c == '>' {
        let f = finish_attr(m);
        let e = emit_tag(f.st);
        mk(e.st, f.out + e.out)
    } else if c == '&' {
        mk(
            TokModel {
                state: XmlState::CharRefStart { ctx: CharRefCtx::InUq },
                ref_buf: Seq::empty(),
                ref_value: 0,
                ..m
            },
            Seq::empty(),
        )
    } else {
        mk(
            TokModel { state: XmlState::AttrValueUq, attr_value: m.attr_value.push(c), ..m },
            Seq::empty(),
        )
    }
}

/// One character reprocessed in the mode a reference was entered from.
pub open spec fn ctx_step(m: TokModel, ctx: CharRefCtx, c: char) -> StepRes {
    match ctx {
        CharRefCtx::InData => data_step(m, c),
        CharRefCtx::InDq => quoted_value_step(m, c, '"', CharRefCtx::InDq),
        CharRefCtx::InSq => quoted_value_step(m, c, '\'', CharRefCtx::InSq),
        CharRefCtx::InUq => unquoted_value_step(m, c),
    }
}

/// Abandons a reference: its literal text is kept, a parse error is
/// reported, and the character is reprocessed in the entering mode.
pub open spec fn ref_abandon(m: TokModel, ctx: CharRefCtx, c: char) -> StepRes {
    let lit = seq!['&'] + m.ref_buf;
    let m2 = TokModel { ref_buf: Seq::empty(), ..app_ctx(m, ctx, lit) };
    let r = ctx_step(m2, ctx, c);
    mk(r.st, seq![err(desc_of(m.exact_errors, "invalid character reference"@))] + r.out)
}

/// One character in `CharRefStart` (just after `&`).
pub open spec fn ref_start_step(m: TokModel, ctx: CharRefCtx, c: char) -> StepRes {
    if c == '#' {
        mk(
            TokModel { state: XmlState::CharRefNumStart { ctx }, ref_buf: seq!['#'], ..m },
            Seq::empty(),
        )
    } else if is_alnum(c) {
        mk(
            TokModel { state: XmlState::CharRefNamed { ctx }, ref_buf: seq![c], ..m },
            Seq::empty(),
        )
    } else {
        ref_abandon(m, ctx, c)
    }
}

/// One character in `CharRefNamed` (reading a reference name).
pub open spec fn ref_named_step(m: TokModel, ctx: CharRefCtx, c: char) -> StepRes {
    if is_alnum(c) {
        mk(TokModel { ref_buf: m.ref_buf.push(c), ..m }, Seq::empty())
    } else if c == ';' {
        match named_expansion(m.ref_buf) {
            Some(s) => mk(
                TokModel { state: ctx_state(ctx), ref_buf: Seq::empty(), ..app_ctx(m, ctx, s) },
                Seq::empty(),
            ),
            None => {
                let lit = seq!['&'] + m.ref_buf + seq![';'];
                mk(
                    TokModel {
                        state: ctx_state(ctx),
                        ref_buf: Seq::empty(),
                        ..app_ctx(m, ctx, lit)
                    },
                    seq![err(desc_of(m.exact_errors, "unknown named character reference"@))],
                )
            },
        }
    } else {
        ref_abandon(m, ctx, c)
    }
}

/// One character in `CharRefNumStart` (just after `&#`).
pub open spec fn ref_num_start_step(m: TokModel, ctx: CharRefCtx, c: char) -> StepRes {
    if c == 'x' || c == 'X' {
        mk(
            TokModel { state: XmlState::CharRefHexStart { ctx }, ref_buf: m.ref_buf.push(c), ..m },
            Seq::empty(),
        )
    } else if is_digit(c) {
        mk(
            TokModel {
                state: XmlState::CharRefDigits { ctx, hex: false },
                ref_buf: m.ref_buf.push(c),
                ref_value: digit_value(c),
                ..m
            },
            Seq::empty(),
        )
    } else {
        ref_abandon(m, ctx, c)
    }
}

/// One character in `CharRefHexStart` (just after `&#x`).
pub open spec fn ref_hex_start_step(m: TokModel, ctx: CharRefCtx, c: char) -> StepRes {
    if is_hex_digit(c) {
        mk(
            TokModel {
                state: XmlState::CharRefDigits { ctx, hex: true },
                ref_buf: m.ref_buf.push(c),
                ref_value: digit_value(c),
                ..m
            },
            Seq::empty(),
        )
    } else {
        ref_abandon(m, ctx, c)
    }
}

/// Accumulates one more digit, saturating above the maximum scalar value.
pub open spec fn ref_acc(v: u32, hex: bool, c: char) -> u32 {
    if v < 0x110000 {
        (v * (if hex { 16u32 } else { 10u32 }) + digit_value(c)) as u32
    } else {
        v
    }
}

/// One character in `CharRefDigits` (reading a digit run).
pub open spec fn ref_digits_step(m: TokModel, ctx: CharRefCtx, hex: bool, c: char) -> StepRes {
    if (hex && is_hex_digit(c)) || (!hex && is_digit(c)) {
        mk(
            TokModel { ref_buf: m.ref_buf.push(c), ref_value: ref_acc(m.ref_value, hex, c), ..m },
            Seq::empty(),
        )
    } else if c == ';' {
        let dec = numeric_expansion(m.ref_value);
        let m2 = TokModel {
            state: ctx_state(ctx),
            ref_buf: Seq::empty(),
            ref_value: 0,
            ..app_ctx(m, ctx, seq![dec.0])
        };
        if dec.1 {
            mk(m2, seq![err(desc_of(m.exact_errors, "numeric reference to a disallowed codepoint"@))])
        } else {
            mk(m2, Seq::empty())
        }
    } else {
        ref_abandon(m, ctx, c)
    }
}

/// The characters of the CDATA opening marker `CDATA[`.
pub open spec fn cdata_marker(i: int) -> char {
    if i == 0 {
        'C'
    } else if i == 1 {
        'D'
    } else if i == 2 {
        'A'
    } else if i == 3 {
        'T'
    } else if i == 4 {
        'A'
    } else {
        '['
    }
}

/// Case-insensitive match of position `i` of the DOCTYPE keyword after
/// its leading `D`.
pub open spec fn doctype_kw_match(i: int, c: char) -> bool {
    if i == 0 {
        c == 'O' || c == 'o'
    } else if i == 1 {
        c == 'C' || c == 'c'
    } else if i == 2 {
        c == 'T' || c == 't'
    } else if i == 3 {
        c == 'Y' || c == 'y'
    } else if i == 4 {
        c == 'P' || c == 'p'
    } else {
        c == 'E' || c == 'e'
    }
}

/// Starts a fresh tag in the scratch buffers.
pub open spec fn start_tag_with(m: TokModel, c: char, end_tag: bool, st: XmlState) -> TokModel {
    TokModel {
        state: st,
        tag_name: seq![c],
        end_tag,
        self_closing: false,
        attrs: Seq::empty(),
        attr_name: Seq::empty(),
        attr_value: Seq::empty(),
        ..m
    }
}

/// One character in `XmlState::TagOpen` mode.
pub open spec fn st_tag_open(m: TokModel, c: char) -> StepRes {
    if c == '!' {
        mk(TokModel { state: XmlState::BangOpen, ..m }, Seq::empty())
    } else if c == '?' {
        mk(
            TokModel {
                state: XmlState::PiTarget,
                pi_target: Seq::empty(),
                pi_data: Seq::empty(),
                ..m
            },
            Seq::empty(),
        )
    } else if c == '/' {
        mk(TokModel { state: XmlState::EndTagOpen, ..m }, Seq::empty())
    } else if is_name_start(c) {
        mk(start_tag_with(m, c, false, XmlState::TagName), Seq::empty())
    } else {
        let r = data_step(TokModel { chars: m.chars.push('<'), ..m }, c);
        mk(r.st, seq![err(desc_of(m.exact_errors, "unexpected character after <"@))] + r.out)
    }
}

/// One character in `XmlState::EndTagOpen` mode.
pub open spec fn st_end_tag_open(m: TokModel, c: char) -> StepRes {
    if is_name_start(c) {
        mk(start_tag_with(m, c, true, XmlState::EndTagName), Seq::empty())
    } else if c == '>' {
        mk(TokModel { state: XmlState::Data, ..m }, seq![err(desc_of(m.exact_errors, "empty end tag"@))])
    } else {
        mk(
            TokModel { state: XmlState::BogusComment, comment: seq![c], ..m },
            seq![err(desc_of(m.exact_errors, "unexpected character after </"@))],
        )
    }
}

/// One character in `XmlState::TagName | XmlState::EndTagName` mode.
pub open spec fn st_tag_name(m: TokModel, c: char) -> StepRes {
    if is_ws(c) {
        mk(TokModel { state: XmlState::BeforeAttrName, ..m }, Seq::empty())
    } else if c == '/' {
        mk(TokModel { state: XmlState::SelfClosing, ..m }, Seq::empty())
    } else if c == '>' {
        emit_tag(m)
    } else {
        mk(TokModel { tag_name: m.tag_name.push(c), ..m }, Seq::empty())
    }
}

/// One character in `XmlState::BeforeAttrName` mode.
pub open spec fn st_before_attr_name(m: TokModel, c: char) -> StepRes {
    if is_ws(c) {
        mk(m, Seq::empty())
    } else if c == '/' {
        mk(TokModel { state: XmlState::SelfClosing, ..m }, Seq::empty())
    } else if c == '>' {
        emit_tag(m)
    } else {
        mk(
            TokModel {
                state: XmlState::AttrName,
                attr_name: seq![c],
                attr_value: Seq::empty(),
                ..m
            },
            Seq::empty(),
        )
    }
}

/// One character in `XmlState::AttrName` mode.
pub open spec fn st_attr_name(m: TokModel, c: char) -> StepRes {
    if is_ws(c) {
        mk(TokModel { state: XmlState::AfterAttrName, ..m }, Seq::empty())
    } else if c == '=' {
        mk(TokModel { state: XmlState::BeforeAttrValue, ..m }, Seq::empty())
    } else if c == '/' {
        let f = finish_attr(m);
        mk(TokModel { state: XmlState::SelfClosing, ..f.st }, f.out)
    } else if c == '>' {
        let f = finish_attr(m);
        let e = emit_tag(f.st);
        mk(e.st, f.out + e.out)
    } else {
        mk(TokModel { attr_name: m.attr_name.push(c), ..m }, Seq::empty())
    }
}

/// One character in `XmlState::AfterAttrName` mode.
pub open spec fn st_after_attr_name(m: TokModel, c: char) -> StepRes {
    if is_ws(c) {
        mk(m, Seq::empty())
    } else if c == '=' {
        mk(TokModel { state: XmlState::BeforeAttrValue, ..m }, Seq::empty())
    } else if c == '/' {
        let f = finish_attr(m);
        mk(TokModel { state: XmlState::SelfClosing, ..f.st }, f.out)
    } else if c == '>' {
        let f = finish_attr(m);
        let e = emit_tag(f.st);
        mk(e.st, f.out + e.out)
    } else {
        let f = finish_attr(m);
        mk(TokModel { state: XmlState::AttrName, attr_name: seq![c], ..f.st }, f.out)
    }
}

/// One character in `XmlState::BeforeAttrValue` mode.
pub open spec fn st_before_attr_value(m: TokModel, c: char) -> StepRes {
    if is_ws(c) {
        mk(m, Seq::empty())
    } else if c == '"' {
        mk(TokModel { state: XmlState::AttrValueDq, ..m }, Seq::empty())
    } else if c == '\'' {
        mk(TokModel { state: XmlState::AttrValueSq, ..m }, Seq::empty())
    } else if c == '>' {
        let f = finish_attr(m);
        let e = emit_tag(f.st);
        mk(e.st, seq![err(desc_of(m.exact_errors, "attribute without a value"@))] + f.out + e.out)
    } else if c == '&' {
        mk(
            TokModel {
                state: XmlState::CharRefStart { ctx: CharRefCtx::InUq },
                ref_buf: Seq::empty(),
                ref_value: 0,
                ..m
            },
            Seq::empty(),
        )
    } else {
        mk(
            TokModel { state: XmlState::AttrValueUq, attr_value: seq![c], ..m },
            Seq::empty(),
        )
    }
}

/// One character in `XmlState::AfterAttrValueQ` mode.
pub open spec fn st_after_attr_value_q(m: TokModel, c: char) -> StepRes {
    if is_ws(c) {
        mk(TokModel { state: XmlState::BeforeAttrName, ..m }, Seq::empty())
    } else if c == '/' {
        mk(TokModel { state: XmlState::SelfClosing, ..m }, Seq::empty())
    } else if c == '>' {
        emit_tag(m)
    } else {
        mk(
            TokModel {
                state: XmlState::AttrName,
                attr_name: seq![c],
                attr_value: Seq::empty(),
                ..m
            },
            seq![err(desc_of(m.exact_errors, "missing whitespace between attributes"@))],
        )
    }
}

/// One character in `XmlState::SelfClosing` mode.
pub open spec fn st_self_closing(m: TokModel, c: char) -> StepRes {
    if c == '>' {
        emit_tag(TokModel { self_closing: true, ..m })
    } else if is_ws(c) {
        mk(
            TokModel { state: XmlState::BeforeAttrName, ..m },
            seq![err(desc_of(m.exact_errors, "unexpected character after /"@))],
        )
    } else if c == '/' {
        mk(m, seq![err(desc_of(m.exact_errors, "unexpected character after /"@))])
    } else {
        mk(
            TokModel {
                state: XmlState::AttrName,
                attr_name: seq![c],
                attr_value: Seq::empty(),
                ..m
            },
            seq![err(desc_of(m.exact_errors, "unexpected character after /"@))],
        )
    }
}

/// One character in `XmlState::BangOpen` mode.
pub open spec fn st_bang_open(m: TokModel, c: char) -> StepRes {
    if c == '-' {
        mk(TokModel { state: XmlState::BangDash, ..m }, Seq::empty())
    } else if c == '[' {
        if m.depth > 0 {
            mk(TokModel { state: XmlState::CdataPrefix { matched: 0 }, ..m }, Seq::empty())
        } else {
            mk(
                TokModel { state: XmlState::BogusComment, comment: seq![c], ..m },
                seq![err(desc_of(m.exact_errors, "CDATA section outside element content"@))],
            )
        }
    } else if c == 'D' || c == 'd' {
        mk(TokModel { state: XmlState::DoctypeKw { matched: 0 }, ..m }, Seq::empty())
    } else {
        mk(
            TokModel { state: XmlState::BogusComment, comment: seq![c], ..m },
            seq![err(desc_of(m.exact_errors, "unexpected markup declaration"@))],
        )
    }
}

/// One character in `XmlState::BangDash` mode.
pub open spec fn st_bang_dash(m: TokModel, c: char) -> StepRes {
    if c == '-' {
        mk(
            TokModel { state: XmlState::CommentStart, comment: Seq::empty(), ..m },
            Seq::empty(),
        )
    } else {
        mk(
            TokModel { state: XmlState::BogusComment, comment: seq!['-', c], ..m },
            seq![err(desc_of(m.exact_errors, "unexpected markup declaration"@))],
        )
    }
}

/// One character in `XmlState::CommentStart` mode.
pub open spec fn st_comment_start(m: TokModel, c: char) -> StepRes {
    if c == '-' {
        mk(TokModel { state: XmlState::CommentStartDash, ..m }, Seq::empty())
    } else if c == '>' {
        mk(
            TokModel { state: XmlState::Data, comment: Seq::empty(), ..m },
            seq![
                err(desc_of(m.exact_errors, "comment closed too early"@)),
                SpecToken::Comment { text: m.comment },
            ],
        )
    } else {
        mk(
            TokModel { state: XmlState::Comment, comment: m.comment.push(c), ..m },
            Seq::empty(),
        )
    }
}

/// One character in `XmlState::CommentStartDash` mode.
pub open spec fn st_comment_start_dash(m: TokModel, c: char) -> StepRes {
    if c == '-' {
        mk(TokModel { state: XmlState::CommentEnd, ..m }, Seq::empty())
    } else if c == '>' {
        mk(
            TokModel { state: XmlState::Data, comment: Seq::empty(), ..m },
            seq![
                err(desc_of(m.exact_errors, "comment closed too early"@)),
                SpecToken::Comment { text: m.comment },
            ],
        )
    } else {
        mk(
            TokModel { state: XmlState::Comment, comment: m.comment.push('-').push(c), ..m },
            Seq::empty(),
        )
    }
}

/// One character in `XmlState::Comment` mode.
pub open spec fn st_comment(m: TokModel, c: char) -> StepRes {
    if c == '-' {
        mk(TokModel { state: XmlState::CommentEndDash, ..m }, Seq::empty())
    } else {
        mk(TokModel { comment: m.comment.push(c), ..m }, Seq::empty())
    }
}

/// One character in `XmlState::CommentEndDash` mode.
pub open spec fn st_comment_end_dash(m: TokModel, c: char) -> StepRes {
    if c == '-' {
        mk(TokModel { state: XmlState::CommentEnd, ..m }, Seq::empty())
    } else {
        mk(
            TokModel { state: XmlState::Comment, comment: m.comment.push('-').push(c), ..m },
            Seq::empty(),
        )
    }
}

/// One character in `XmlState::CommentEnd` mode.
pub open spec fn st_comment_end(m: TokModel, c: char) -> StepRes {
    if c == '>' {
        mk(
            TokModel { state: XmlState::Data, comment: Seq::empty(), ..m },
            seq![SpecToken::Comment { text: m.comment }],
        )
    } else if c == '-' {
        mk(TokModel { comment: m.comment.push('-'), ..m }, Seq::empty())
    } else {
        mk(
            TokModel {
                state: XmlState::Comment,
                comment: m.comment.push('-').push('-').push(c),
                ..m
            },
            Seq::empty(),
        )
    }
}

/// One character in `XmlState::CdataPrefix { matched }` mode.
pub open spec fn st_cdata_prefix(m: TokModel, c: char, matched: u8) -> StepRes {
    if c == cdata_marker(matched as int) {
        if matched >= 5 {
            mk(TokModel { state: XmlState::Cdata, ..m }, Seq::empty())
        } else {
            mk(
                TokModel { state: XmlState::CdataPrefix { matched: (matched + 1) as u8 }, ..m },
                Seq::empty(),
            )
        }
    } else {
        mk(
            TokModel { state: XmlState::BogusComment, comment: seq![c], ..m },
            seq![err(desc_of(m.exact_errors, "malformed CDATA opening"@))],
        )
    }
}

/// One character in `XmlState::Cdata` mode.
pub open spec fn st_cdata(m: TokModel, c: char) -> StepRes {
    if c == ']' {
        mk(TokModel { state: XmlState::CdataBracket, ..m }, Seq::empty())
    } else {
        mk(TokModel { chars: m.chars.push(c), ..m }, Seq::empty())
    }
}

/// One character in `XmlState::CdataBracket` mode.
pub open spec fn st_cdata_bracket(m: TokModel, c: char) -> StepRes {
    if c == ']' {
        mk(TokModel { state: XmlState::CdataEnd, ..m }, Seq::empty())
    } else {
        mk(
            TokModel { state: XmlState::Cdata, chars: m.chars.push(']').push(c), ..m },
            Seq::empty(),
        )
    }
}

/// One character in `XmlState::CdataEnd` mode.
pub open spec fn st_cdata_end(m: TokModel, c: char) -> StepRes {
    if c == '>' {
        mk(TokModel { state: XmlState::Data, ..m }, Seq::empty())
    } else if c == ']' {
        mk(TokModel { chars: m.chars.push(']'), ..m }, Seq::empty())
    } else {
        mk(
            TokModel {
                state: XmlState::Cdata,
                chars: m.chars.push(']').push(']').push(c),
                ..m
            },
            Seq::empty(),
        )
    }
}

/// One character in `XmlState::DoctypeKw { matched }` mode.
pub open spec fn st_doctype_kw(m: TokModel, c: char, matched: u8) -> StepRes {
    if doctype_kw_match(matched as int, c) {
        if matched >= 5 {
            mk(TokModel { state: XmlState::BeforeDoctypeName, ..m }, Seq::empty())
        } else {
            mk(
                TokModel { state: XmlState::DoctypeKw { matched: (matched + 1) as u8 }, ..m },
                Seq::empty(),
            )
        }
    } else {
        mk(
            TokModel { state: XmlState::BogusComment, comment: seq![c], ..m },
            seq![err(desc_of(m.exact_errors, "malformed DOCTYPE keyword"@))],
        )
    }
}

/// One character in `XmlState::BeforeDoctypeName` mode.
pub open spec fn st_before_doctype_name(m: TokModel, c: char) -> StepRes {
    if is_ws(c) {
        mk(m, Seq::empty())
    } else if c == '>' {
        mk(
            TokModel {
                state: XmlState::Data,
                doctype_name: Seq::empty(),
                doctype_data: Seq::empty(),
                ..m
            },
            seq![
                err(desc_of(m.exact_errors, "DOCTYPE without a name"@)),
                SpecToken::Doctype { name: Seq::empty(), data: Seq::empty() },
            ],
        )
    } else {
        mk(
            TokModel {
                state: XmlState::DoctypeName,
                doctype_name: seq![c],
                doctype_data: Seq::empty(),
                ..m
            },
            Seq::empty(),
        )
    }
}

/// One character in `XmlState::DoctypeName` mode.
pub open spec fn st_doctype_name(m: TokModel, c: char) -> StepRes {
    if is_ws(c) {
        mk(TokModel { state: XmlState::DoctypeRest, ..m }, Seq::empty())
    } else if c == '>' {
        mk(
            TokModel {
                state: XmlState::Data,
                doctype_name: Seq::empty(),
                doctype_data: Seq::empty(),
                ..m
            },
            seq![SpecToken::Doctype { name: m.doctype_name, data: Seq::empty() }],
        )
    } else {
        mk(TokModel { doctype_name: m.doctype_name.push(c), ..m }, Seq::empty())
    }
}

/// One character in `XmlState::DoctypeRest` mode.
pub open spec fn st_doctype_rest(m: TokModel, c: char) -> StepRes {
    if c == '>' {
        mk(
            TokModel {
                state: XmlState::Data,
                doctype_name: Seq::empty(),
                doctype_data: Seq::empty(),
                ..m
            },
            seq![SpecToken::Doctype { name: m.doctype_name, data: m.doctype_data }],
        )
    } else {
        mk(TokModel { doctype_data: m.doctype_data.push(c), ..m }, Seq::empty())
    }
}

/// One character in `XmlState::BogusComment` mode.
pub open spec fn st_bogus_comment(m: TokModel, c: char) -> StepRes {
    if c == '>' {
        mk(
            TokModel { state: XmlState::Data, comment: Seq::empty(), ..m },
            seq![SpecToken::Comment { text: m.comment }],
        )
    } else {
        mk(TokModel { comment: m.comment.push(c), ..m }, Seq::empty())
    }
}

/// One character in `XmlState::PiTarget` mode.
pub open spec fn st_pi_target(m: TokModel, c: char) -> StepRes {
    if is_ws(c) {
        mk(TokModel { state: XmlState::PiData, ..m }, Seq::empty())
    } else if c == '?' {
        mk(TokModel { state: XmlState::PiMaybeEnd, ..m }, Seq::empty())
    } else {
        mk(TokModel { pi_target: m.pi_target.push(c), ..m }, Seq::empty())
    }
}

/// One character in `XmlState::PiData` mode.
pub open spec fn st_pi_data(m: TokModel, c: char) -> StepRes {
    if c == '?' {
        mk(TokModel { state: XmlState::PiMaybeEnd, ..m }, Seq::empty())
    } else {
        mk(TokModel { pi_data: m.pi_data.push(c), ..m }, Seq::empty())
    }
}

/// One character in `XmlState::PiMaybeEnd` mode.
pub open spec fn st_pi_maybe_end(m: TokModel, c: char) -> StepRes {
    if c == '>' {
        mk(
            TokModel {
                state: XmlState::Data,
                pi_target: Seq::empty(),
                pi_data: Seq::empty(),
                ..m
            },
            seq![
                SpecToken::ProcessingInstruction { target: m.pi_target, data: m.pi_data },
            ],
        )
    } else if c == '?' {
        mk(TokModel { pi_data: m.pi_data.push('?'), ..m }, Seq::empty())
    } else {
        mk(
            TokModel { state: XmlState::PiData, pi_data: m.pi_data.push('?').push(c), ..m },
            Seq::empty(),
        )
    }
}

/// What one input character does to the tokenizer: the transition
/// function of the whole state machine.
pub open spec fn tok_step(m0: TokModel, c: char) -> StepRes {
    if !m0.started && m0.discard_bom && c == '\u{feff}' {
        mk(TokModel { started: true, ..m0 }, Seq::empty())
    } else {
        let m = TokModel { started: true, ..m0 };
        match m.state {
            XmlState::Data => data_step(m, c),
            XmlState::TagOpen => st_tag_open(m, c),
            XmlState::EndTagOpen => st_end_tag_open(m, c),
            XmlState::TagName | XmlState::EndTagName => st_tag_name(m, c),
            XmlState::BeforeAttrName => st_before_attr_name(m, c),
            XmlState::AttrName => st_attr_name(m, c),
            XmlState::AfterAttrName => st_after_attr_name(m, c),
            XmlState::BeforeAttrValue => st_before_attr_value(m, c),
            XmlState::AttrValueDq => quoted_value_step(m, c, '"', CharRefCtx::InDq),
            XmlState::AttrValueSq => quoted_value_step(m, c, '\'', CharRefCtx::InSq),
            XmlState::AttrValueUq => unquoted_value_step(m, c),
            XmlState::AfterAttrValueQ => st_after_attr_value_q(m, c),
            XmlState::SelfClosing => st_self_closing(m, c),
            XmlState::BangOpen => st_bang_open(m, c),
            XmlState::BangDash => st_bang_dash(m, c),
            XmlState::CommentStart => st_comment_start(m, c),
            XmlState::CommentStartDash => st_comment_start_dash(m, c),
            XmlState::Comment => st_comment(m, c),
            XmlState::CommentEndDash => st_comment_end_dash(m, c),
            XmlState::CommentEnd => st_comment_end(m, c),
            XmlState::CdataPrefix { matched } => st_cdata_prefix(m, c, matched),
            XmlState::Cdata => st_cdata(m, c),
            XmlState::CdataBracket => st_cdata_bracket(m, c),
            XmlState::CdataEnd => st_cdata_end(m, c),
            XmlState::DoctypeKw { matched } => st_doctype_kw(m, c, matched),
            XmlState::BeforeDoctypeName => st_before_doctype_name(m, c),
            XmlState::DoctypeName => st_doctype_name(m, c),
            XmlState::DoctypeRest => st_doctype_rest(m, c),
            XmlState::BogusComment => st_bogus_comment(m, c),
            XmlState::PiTarget => st_pi_target(m, c),
            XmlState::PiData => st_pi_data(m, c),
            XmlState::PiMaybeEnd => st_pi_maybe_end(m, c),
            XmlState::CharRefStart { ctx } => ref_start_step(m, ctx, c),
            XmlState::CharRefNamed { ctx } => ref_named_step(m, ctx, c),
            XmlState::CharRefNumStart { ctx } => ref_num_start_step(m, ctx, c),
            XmlState::CharRefHexStart { ctx } => ref_hex_start_step(m, ctx, c),
            XmlState::CharRefDigits { ctx, hex } => ref_digits_step(m, ctx, hex, c),
        }
    }
}

/// Folds [`tok_step`] over a whole chunk of input.
pub open spec fn tok_feed(m: TokModel, s: Seq<char>) -> StepRes
    decreases s.len(),
{
    if s.len() == 0 {
        mk(m, Seq::empty())
    } else {
        let r1 = tok_step(m, s[0]);
        let r2 = tok_feed(r1.st, s.skip(1));
        mk(r2.st, r1.out + r2.out)
    }
}

/// Feeding two chunks in a row is the same as feeding their
/// concatenation: the very statement that chunk boundaries carry no
/// meaning, and the backbone of the chunk-boundary invariance law.
pub proof fn lemma_feed_concat(m: TokModel, s1: Seq<char>, s2: Seq<char>)
    ensures
        tok_feed(m, s1 + s2).st == tok_feed(tok_feed(m, s1).st, s2).st,
        tok_feed(m, s1 + s2).out == tok_feed(m, s1).out + tok_feed(tok_feed(m, s1).st, s2).out,
    decreases s1.len(),
{
    if s1.len() == 0 {
        assert(s1 + s2 =~= s2);
        assert(tok_feed(m, s1).st == m);
        assert(tok_feed(m, s1).out + tok_feed(m, s2).out =~= tok_feed(m, s2).out);
    } else {
        let c = s1[0];
        let r1 = tok_step(m, c);
        assert((s1 + s2)[0] == c);
        assert((s1 + s2).skip(1) =~= s1.skip(1) + s2);
        lemma_feed_concat(r1.st, s1.skip(1), s2);
        let a = r1.out;
        let b = tok_feed(r1.st, s1.skip(1)).out;
        let d = tok_feed(tok_feed(m, s1).st, s2).out;
        assert(a + (b + d) =~= (a + b) + d);
    }
}

/// One more character at the end of a chunk is one more step.
pub proof fn lemma_feed_snoc(m: TokModel, s: Seq<char>, c: char)
    ensures
        tok_feed(m, s.push(c)).st == tok_step(tok_feed(m, s).st, c).st,
        tok_feed(m, s.push(c)).out == tok_feed(m, s).out + tok_step(tok_feed(m, s).st, c).out,
{
    assert(s.push(c) =~= s + seq![c]);
    lemma_feed_concat(m, s, seq![c]);
    let m1 = tok_feed(m, s).st;
    let r = tok_step(m1, c);
    assert(tok_feed(m1, seq![c]).st == tok_feed(r.st, seq![c].skip(1)).st);
    assert(seq![c].skip(1) =~= Seq::<char>::empty());
    assert(tok_feed(m1, seq![c]).out =~= r.out);
    assert(tok_feed(m, s).out + tok_feed(m1, seq![c]).out =~= tok_feed(m, s).out + r.out);
}

/// What end of input forces out of the state left behind: a parse error
/// and a best-effort token for anything unterminated, then the pending
/// character run, then `Eof`.
pub open spec fn tok_end(m: TokModel) -> Seq<SpecToken> {
    end_pre(m) + seq![SpecToken::Eof]
}

/// Everything [`tok_end`] emits before the final `Eof` token.
pub open spec fn end_pre(m: TokModel) -> Seq<SpecToken> {
    let fin = end_state_tokens(m);
    let flushed = if fin.st.chars.len() > 0 {
        seq![SpecToken::Characters { text: fin.st.chars }]
    } else {
        Seq::<SpecToken>::empty()
    };
    flushed + fin.out
}

/// End of input in `XmlState::Data`.
pub open spec fn end_in_data(m: TokModel) -> StepRes {
    mk(m, Seq::empty())
}

/// End of input in `XmlState::TagOpen`.
pub open spec fn end_in_tag_open(m: TokModel) -> StepRes {
    mk(
        TokModel { chars: m.chars.push('<'), ..m },
        seq![err(desc_of(m.exact_errors, "end of input after <"@))],
    )
}

/// End of input in `XmlState::EndTagOpen`.
pub open spec fn end_in_end_tag_open(m: TokModel) -> StepRes {
    mk(
        TokModel { chars: m.chars.push('<').push('/'), ..m },
        seq![err(desc_of(m.exact_errors, "end of input after </"@))],
    )
}

/// End of input in the tag states without a pending attribute.
pub open spec fn end_in_tag(m: TokModel) -> StepRes {
    let e = emit_tag(m);
    mk(e.st, seq![err(desc_of(m.exact_errors, "end of input inside a tag"@))] + e.out)
}

/// End of input in the attribute states: the pending attribute is
/// committed, then the tag goes out best-effort.
pub open spec fn end_in_attr(m: TokModel) -> StepRes {
    let f = finish_attr(m);
    let e = emit_tag(f.st);
    mk(e.st, seq![err(desc_of(m.exact_errors, "end of input inside a tag"@))] + f.out + e.out)
}

/// End of input in `XmlState::BangOpen | XmlState::BangDash`.
pub open spec fn end_in_bang(m: TokModel) -> StepRes {
    mk(m, seq![err(desc_of(m.exact_errors, "end of input in markup declaration"@))])
}

/// End of input in the comment states.
pub open spec fn end_in_comment(m: TokModel) -> StepRes {
    mk(
        m,
        seq![
            err(desc_of(m.exact_errors, "end of input in comment"@)),
            SpecToken::Comment { text: m.comment },
        ],
    )
}

/// End of input in `XmlState::CdataPrefix { .. }`.
pub open spec fn end_in_cdata_open(m: TokModel) -> StepRes {
    mk(m, seq![err(desc_of(m.exact_errors, "end of input in CDATA opening"@))])
}

/// End of input in the CDATA states.
pub open spec fn end_in_cdata(m: TokModel) -> StepRes {
    mk(m, seq![err(desc_of(m.exact_errors, "end of input in CDATA section"@))])
}

/// End of input in `XmlState::DoctypeKw { .. }`.
pub open spec fn end_in_doctype_kw(m: TokModel) -> StepRes {
    mk(m, seq![err(desc_of(m.exact_errors, "end of input in DOCTYPE keyword"@))])
}

/// End of input in `XmlState::BeforeDoctypeName`.
pub open spec fn end_in_doctype_start(m: TokModel) -> StepRes {
    mk(
        m,
        seq![
            err(desc_of(m.exact_errors, "end of input in DOCTYPE"@)),
            SpecToken::Doctype { name: Seq::empty(), data: Seq::empty() },
        ],
    )
}

/// End of input in `XmlState::DoctypeName | XmlState::DoctypeRest`.
pub open spec fn end_in_doctype(m: TokModel) -> StepRes {
    mk(
        m,
        seq![
            err(desc_of(m.exact_errors, "end of input in DOCTYPE"@)),
            SpecToken::Doctype { name: m.doctype_name, data: m.doctype_data },
        ],
    )
}

/// End of input in `XmlState::BogusComment`.
pub open spec fn end_in_bogus_comment(m: TokModel) -> StepRes {
    mk(
        m,
        seq![
            err(desc_of(m.exact_errors, "end of input in markup declaration"@)),
            SpecToken::Comment { text: m.comment },
        ],
    )
}

/// End of input in the processing-instruction states.
pub open spec fn end_in_pi(m: TokModel) -> StepRes {
    mk(
        m,
        seq![
            err(desc_of(m.exact_errors, "end of input in processing instruction"@)),
            SpecToken::ProcessingInstruction { target: m.pi_target, data: m.pi_data },
        ],
    )
}

/// State-specific resolution at end of input.  The returned model only
/// matters through its `chars` buffer, which [`end_pre`] flushes.
pub open spec fn end_state_tokens(m: TokModel) -> StepRes {
    match m.state {
        XmlState::Data => end_in_data(m),
        XmlState::TagOpen => end_in_tag_open(m),
        XmlState::EndTagOpen => end_in_end_tag_open(m),
        XmlState::TagName | XmlState::EndTagName | XmlState::BeforeAttrName
            | XmlState::AfterAttrValueQ | XmlState::SelfClosing => end_in_tag(m),
        XmlState::AttrName | XmlState::AfterAttrName | XmlState::BeforeAttrValue
            | XmlState::AttrValueDq | XmlState::AttrValueSq | XmlState::AttrValueUq => end_in_attr(
            m,
        ),
        XmlState::BangOpen | XmlState::BangDash => end_in_bang(m),
        XmlState::CommentStart | XmlState::CommentStartDash | XmlState::Comment
            | XmlState::CommentEndDash | XmlState::CommentEnd => end_in_comment(m),
        XmlState::CdataPrefix { .. } => end_in_cdata_open(m),
        XmlState::Cdata | XmlState::CdataBracket | XmlState::CdataEnd => end_in_cdata(m),
        XmlState::DoctypeKw { .. } => end_in_doctype_kw(m),
        XmlState::BeforeDoctypeName => end_in_doctype_start(m),
        XmlState::DoctypeName | XmlState::DoctypeRest => end_in_doctype(m),
        XmlState::BogusComment => end_in_bogus_comment(m),
        XmlState::PiTarget | XmlState::PiData | XmlState::PiMaybeEnd => end_in_pi(m),
        XmlState::CharRefStart { ctx } | XmlState::CharRefNamed { ctx }
            | XmlState::CharRefNumStart { ctx } | XmlState::CharRefHexStart { ctx } => end_ref(
            m,
            ctx,
        ),
        XmlState::CharRefDigits { ctx, .. } => end_ref(m, ctx),
    }
}

/// End of input inside a character reference: keep the literal text,
/// report it, then resolve the entering mode's own end of input (for an
/// attribute context that is the unterminated tag).
pub open spec fn end_ref(m: TokModel, ctx: CharRefCtx) -> StepRes {
    let lit = seq!['&'] + m.ref_buf;
    let m2 = TokModel { state: ctx_state(ctx), ref_buf: Seq::empty(), ..app_ctx(m, ctx, lit) };
    match ctx {
        CharRefCtx::InData => mk(m2, seq![err(desc_of(m.exact_errors, "end of input in character reference"@))]),
        _ => {
            let f = finish_attr(m2);
            let e = emit_tag(f.st);
            mk(
                e.st,
                seq![
                    err(desc_of(m.exact_errors, "end of input in character reference"@)),
                    err(desc_of(m.exact_errors, "end of input inside a tag"@)),
                ] + f.out + e.out,
            )
        },
    }
}

} // verus!
