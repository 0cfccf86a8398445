//! The executable tokenizer, proved to follow the model in `tok_model`.
//!
//! `feed` drives the state machine one character at a time, suspending
//! mid-construct at the end of each chunk and resuming from the same
//! point on the next; `end` forces out whatever is left.  Both are
//! specified exactly by [`tok_feed`] and [`tok_end`] over the model.

use vstd::prelude::*;
use crate::states::CharRefCtx;
use crate::states::XmlState;
use crate::tokens::Attribute;
use crate::tokens::SpecToken;
use crate::tokens::Token;
use crate::tok_model::TokModel;
use crate::tok_model::app_ctx;
use crate::tok_model::cdata_marker;
use crate::tok_model::ctx_state;
use crate::tok_model::desc_of;
use crate::tok_model::ctx_step;
use crate::tok_model::data_step;
use crate::tok_model::doctype_kw_match;
use crate::tok_model::emit_tag;
use crate::tok_model::end_pre;
use crate::tok_model::end_ref;
use crate::tok_model::end_state_tokens;
use crate::tok_model::ref_digits_step;
use crate::tok_model::ref_hex_start_step;
use crate::tok_model::ref_named_step;
use crate::tok_model::ref_num_start_step;
use crate::tok_model::ref_start_step;
use crate::tok_model::st_after_attr_name;
use crate::tok_model::st_after_attr_value_q;
use crate::tok_model::st_attr_name;
use crate::tok_model::st_bang_dash;
use crate::tok_model::st_bang_open;
use crate::tok_model::st_before_attr_name;
use crate::tok_model::st_before_attr_value;
use crate::tok_model::st_before_doctype_name;
use crate::tok_model::st_bogus_comment;
use crate::tok_model::st_cdata;
use crate::tok_model::st_cdata_bracket;
use crate::tok_model::st_cdata_end;
use crate::tok_model::st_cdata_prefix;
use crate::tok_model::st_comment;
use crate::tok_model::st_comment_end;
use crate::tok_model::st_comment_end_dash;
use crate::tok_model::st_comment_start;
use crate::tok_model::st_comment_start_dash;
use crate::tok_model::st_doctype_kw;
use crate::tok_model::st_doctype_name;
use crate::tok_model::st_doctype_rest;
use crate::tok_model::st_end_tag_open;
use crate::tok_model::st_pi_data;
use crate::tok_model::st_pi_maybe_end;
use crate::tok_model::st_pi_target;
use crate::tok_model::st_self_closing;
use crate::tok_model::st_tag_name;
use crate::tok_model::st_tag_open;
use crate::tok_model::err;
use crate::tok_model::finish_attr;
use crate::tok_model::first_colon_from;
use crate::tok_model::has_attr;
use crate::tok_model::lemma_feed_snoc;
use crate::tok_model::quoted_value_step;
use crate::tok_model::ref_abandon;
use crate::tok_model::start_tag_with;
use crate::tok_model::tok_end;
use crate::tok_model::tok_feed;
use crate::tok_model::tok_init;
use crate::tok_model::tok_step;
use crate::tok_model::unquoted_value_step;
use crate::util::alnum;
use crate::util::chars_of;
use crate::util::digit;
use crate::util::digit_val;
use crate::util::eq_vec;
use crate::util::hex_digit;
use crate::util::name_start;
use crate::util::push_all;
use crate::util::sub_vec;
use crate::util::take_vec;
use crate::util::ws;
use crate::charref::lookup_named;
use crate::charref::decode_numeric;

verus! {

/// A capability that receives one token at a time, in document order.
///
/// `toks` is the sequence of tokens received so far; `wf` is whatever
/// invariant the implementation needs carried across calls.
pub trait TokenSink {
    spec fn toks(&self) -> Seq<SpecToken>;

    spec fn wf(&self) -> bool;

    fn process_token(&mut self, t: Token)
        requires
            old(self).wf(),
        ensures
            final(self).wf(),
            final(self).toks() == old(self).toks().push(t@),
    ;
}

/// Tokenizer leniency options.  `discard_bom` strips a byte-order mark at
/// the very start of the input; `exact_errors` chooses precise error
/// descriptions over one fixed approximate one; `profile` is accepted
/// for compatibility and does not change what is emitted.
#[derive(Clone, Copy, PartialEq, Eq, Debug)]
pub struct XmlTokenizerOpts {
    pub exact_errors: bool,
    pub discard_bom: bool,
    pub profile: bool,
}

impl Default for XmlTokenizerOpts {
    fn default() -> (r: Self)
        ensures
            r == (XmlTokenizerOpts { exact_errors: false, discard_bom: true, profile: false }),
    {
        XmlTokenizerOpts { exact_errors: false, discard_bom: true, profile: false }
    }
}

/// The streaming tokenizer: a lexical mode plus the scratch buffers of
/// the token under construction, feeding a [`TokenSink`].
pub struct XmlTokenizer<S: TokenSink> {
    sink: S,
    state: XmlState,
    chars: Vec<char>,
    tag_name: Vec<char>,
    end_tag: bool,
    self_closing: bool,
    attrs: Vec<Attribute>,
    attr_name: Vec<char>,
    attr_value: Vec<char>,
    comment: Vec<char>,
    pi_target: Vec<char>,
    pi_data: Vec<char>,
    doctype_name: Vec<char>,
    doctype_data: Vec<char>,
    ref_buf: Vec<char>,
    ref_value: u32,
    depth: usize,
    started: bool,
    opts: XmlTokenizerOpts,
}

impl<S: TokenSink> XmlTokenizer<S> {
    /// The abstract state this tokenizer is in.
    pub closed spec fn model(&self) -> TokModel {
        TokModel {
            state: self.state,
            chars: self.chars@,
            tag_name: self.tag_name@,
            end_tag: self.end_tag,
            self_closing: self.self_closing,
            attrs: self.attrs.deep_view(),
            attr_name: self.attr_name@,
            attr_value: self.attr_value@,
            comment: self.comment@,
            pi_target: self.pi_target@,
            pi_data: self.pi_data@,
            doctype_name: self.doctype_name@,
            doctype_data: self.doctype_data@,
            ref_buf: self.ref_buf@,
            ref_value: self.ref_value,
            depth: self.depth,
            started: self.started,
            discard_bom: self.opts.discard_bom,
            exact_errors: self.opts.exact_errors,
        }
    }

    /// The tokens delivered to the sink so far.
    pub closed spec fn toks(&self) -> Seq<SpecToken> {
        self.sink.toks()
    }

    pub closed spec fn wf(&self) -> bool {
        self.sink.wf()
    }

    /// The sink this tokenizer feeds.
    pub closed spec fn sink_of(&self) -> S {
        self.sink
    }

    pub fn new(sink: S, opts: XmlTokenizerOpts) -> (r: Self)
        ensures
            r.model() == tok_init(opts.discard_bom, opts.exact_errors),
            r.toks() == sink.toks(),
            r.wf() <==> sink.wf(),
            r.sink_of() == sink,
    {
        let r = XmlTokenizer {
            sink,
            state: XmlState::Data,
            chars: Vec::new(),
            tag_name: Vec::new(),
            end_tag: false,
            self_closing: false,
            attrs: Vec::new(),
            attr_name: Vec::new(),
            attr_value: Vec::new(),
            comment: Vec::new(),
            pi_target: Vec::new(),
            pi_data: Vec::new(),
            doctype_name: Vec::new(),
            doctype_data: Vec::new(),
            ref_buf: Vec::new(),
            ref_value: 0,
            depth: 0,
            started: false,
            opts,
        };
        proof {
            assert(r.model() =~= tok_init(opts.discard_bom, opts.exact_errors));
        }
        r
    }

    /// Hands the sink back.
    pub fn unwrap(self) -> (r: S)
        ensures
            r == self.sink_of(),
            r.toks() == self.toks(),
            r.wf() <==> self.wf(),
    {
        self.sink
    }

    /// Delivers one token to the sink.
    fn emit(&mut self, t: Token)
        requires
            old(self).wf(),
        ensures
            final(self).wf(),
            final(self).model() == old(self).model(),
            final(self).toks() == old(self).toks().push(t@),
    {
        self.sink.process_token(t);
    }

    /// Reports one parse error, with the precise description only when
    /// the options ask for exact errors.
    fn report(&mut self, desc: &str)
        requires
            old(self).wf(),
        ensures
            final(self).wf(),
            final(self).model() == old(self).model(),
            final(self).toks() == old(self).toks().push(
                err(desc_of(old(self).model().exact_errors, desc@)),
            ),
    {
        let d = if self.opts.exact_errors {
            chars_of(desc)
        } else {
            chars_of("parse error")
        };
        self.emit(Token::ParseError { desc: d });
    }

    /// Flushes the pending character run, if any.
    fn flush_chars(&mut self)
        requires
            old(self).wf(),
        ensures
            final(self).wf(),
            final(self).model() == (TokModel { chars: Seq::empty(), ..old(self).model() }),
            final(self).toks() == if old(self).model().chars.len() > 0 {
                old(self).toks().push(SpecToken::Characters { text: old(self).model().chars })
            } else {
                old(self).toks()
            },
    {
        if self.chars.len() > 0 {
            let text = take_vec(&mut self.chars);
            self.emit(Token::Characters { text });
        }
        proof {
            assert(self.model() =~= (TokModel { chars: Seq::empty(), ..old(self).model() }));
        }
    }

    /// Commits the attribute under construction, dropping a duplicate
    /// name with a parse error.
    fn do_finish_attr(&mut self)
        requires
            old(self).wf(),
        ensures
            final(self).wf(),
            final(self).model() == finish_attr(old(self).model()).st,
            final(self).toks() == old(self).toks() + finish_attr(old(self).model()).out,
    {
        if self.attr_name.len() == 0 {
            proof {
                assert(self.model() =~= finish_attr(old(self).model()).st);
                assert(self.toks() =~= old(self).toks() + finish_attr(old(self).model()).out);
            }
            return;
        }
        let dup = attrs_contain(&self.attrs, &self.attr_name);
        if dup {
            self.attr_name.clear();
            self.attr_value.clear();
            self.report("duplicate attribute");
            proof {
                assert(self.model() =~= finish_attr(old(self).model()).st);
                assert(self.toks() =~= old(self).toks() + finish_attr(old(self).model()).out);
            }
        } else {
            let name = take_vec(&mut self.attr_name);
            let value = take_vec(&mut self.attr_value);
            self.attrs.push(Attribute { name, value });
            proof {
                assert(self.attrs.deep_view() =~= old(self).model().attrs.push(
                    crate::tokens::SpecAttr {
                        name: old(self).model().attr_name,
                        value: old(self).model().attr_value,
                    },
                ));
                assert(self.model() =~= finish_attr(old(self).model()).st);
                assert(self.toks() =~= old(self).toks() + finish_attr(old(self).model()).out);
            }
        }
    }

    /// Emits the tag under construction and returns to `Data` mode.
    fn do_emit_tag(&mut self)
        requires
            old(self).wf(),
        ensures
            final(self).wf(),
            final(self).model() == emit_tag(old(self).model()).st,
            final(self).toks() == old(self).toks() + emit_tag(old(self).model()).out,
    {
        self.state = XmlState::Data;
        self.attr_name.clear();
        self.attr_value.clear();
        if self.end_tag {
            self.depth = if self.depth == 0 {
                0
            } else {
                self.depth - 1
            };
            if self.attrs.len() > 0 {
                self.report("attributes on an end tag");
            }
            if self.self_closing {
                self.report("self-closing end tag");
            }
            let name = take_vec(&mut self.tag_name);
            self.attrs = Vec::new();
            self.end_tag = false;
            self.self_closing = false;
            self.emit(Token::EndTag { name });
            proof {
                assert(self.model() =~= emit_tag(old(self).model()).st);
                assert(self.toks() =~= old(self).toks() + emit_tag(old(self).model()).out);
            }
        } else {
            if !self.self_closing && self.depth != usize::MAX {
                self.depth = self.depth + 1;
            }
            let name = take_vec(&mut self.tag_name);
            let sc = self.self_closing;
            let mut attrs: Vec<Attribute> = Vec::new();
            std::mem::swap(&mut attrs, &mut self.attrs);
            self.self_closing = false;
            match find_colon(&name) {
                Some(i) => {
                    let ln = name.len();
                    let prefix = sub_vec(&name, 0, i);
                    let local = sub_vec(&name, i + 1, ln);
                    self.emit(
                        Token::StartTag { prefix: Some(prefix), local, attrs, self_closing: sc },
                    );
                },
                None => {
                    self.emit(
                        Token::StartTag { prefix: None, local: name, attrs, self_closing: sc },
                    );
                },
            }
            proof {
                assert(self.model() =~= emit_tag(old(self).model()).st);
                assert(self.toks() =~= old(self).toks() + emit_tag(old(self).model()).out);
            }
        }
    }

    /// One character in `Data` mode.
    fn data_char(&mut self, c: char)
        requires
            old(self).wf(),
        ensures
            final(self).wf(),
            final(self).model() == data_step(old(self).model(), c).st,
            final(self).toks() == old(self).toks() + data_step(old(self).model(), c).out,
    {
        if c == '<' {
            self.flush_chars();
            self.state = XmlState::TagOpen;
        } else if c == '&' {
            self.state = XmlState::CharRefStart { ctx: CharRefCtx::InData };
            self.ref_buf.clear();
            self.ref_value = 0;
        } else {
            self.state = XmlState::Data;
            self.chars.push(c);
        }
        proof {
            assert(self.model() =~= data_step(old(self).model(), c).st);
            assert(self.toks() =~= old(self).toks() + data_step(old(self).model(), c).out);
        }
    }

    /// One character in a quoted attribute value.
    fn quoted_value_char(&mut self, c: char, q: char, ctx: CharRefCtx)
        requires
            old(self).wf(),
            ctx_state(ctx) == (if q == '"' {
                XmlState::AttrValueDq
            } else {
                XmlState::AttrValueSq
            }),
            q == '"' || q == '\'',
        ensures
            final(self).wf(),
            final(self).model() == quoted_value_step(old(self).model(), c, q, ctx).st,
            final(self).toks() == old(self).toks() + quoted_value_step(
                old(self).model(),
                c,
                q,
                ctx,
            ).out,
    {
        if c == q {
            self.do_finish_attr();
            self.state = XmlState::AfterAttrValueQ;
        } else if c == '&' {
            self.state = XmlState::CharRefStart { ctx };
            self.ref_buf.clear();
            self.ref_value = 0;
        } else {
            self.state = if q == '"' {
                XmlState::AttrValueDq
            } else {
                XmlState::AttrValueSq
            };
            self.attr_value.push(c);
        }
        proof {
            assert(self.model() =~= quoted_value_step(old(self).model(), c, q, ctx).st);
            assert(self.toks() =~= old(self).toks() + quoted_value_step(
                old(self).model(),
                c,
                q,
                ctx,
            ).out);
        }
    }

    /// One character in an unquoted attribute value.
    fn unquoted_value_char(&mut self, c: char)
        requires
            old(self).wf(),
        ensures
            final(self).wf(),
            final(self).model() == unquoted_value_step(old(self).model(), c).st,
            final(self).toks() == old(self).toks() + unquoted_value_step(
                old(self).model(),
                c,
            ).out,
    {
        if ws(c) {
            self.do_finish_attr();
            self.state = XmlState::BeforeAttrName;
        } else if c == '>' {
            self.do_finish_attr();
            self.do_emit_tag();
        } else if c == '&' {
            self.state = XmlState::CharRefStart { ctx: CharRefCtx::InUq };
            self.ref_buf.clear();
            self.ref_value = 0;
        } else {
            self.state = XmlState::AttrValueUq;
            self.attr_value.push(c);
        }
        proof {
            assert(self.model() =~= unquoted_value_step(old(self).model(), c).st);
            assert(self.toks() =~= old(self).toks() + unquoted_value_step(
                old(self).model(),
                c,
            ).out);
        }
    }

    /// One character reprocessed in the mode a reference was entered from.
    fn ctx_char(&mut self, ctx: CharRefCtx, c: char)
        requires
            old(self).wf(),
        ensures
            final(self).wf(),
            final(self).model() == ctx_step(old(self).model(), ctx, c).st,
            final(self).toks() == old(self).toks() + ctx_step(old(self).model(), ctx, c).out,
    {
        match ctx {
            CharRefCtx::InData => self.data_char(c),
            CharRefCtx::InDq => self.quoted_value_char(c, '"', CharRefCtx::InDq),
            CharRefCtx::InSq => self.quoted_value_char(c, '\'', CharRefCtx::InSq),
            CharRefCtx::InUq => self.unquoted_value_char(c),
        }
    }

    /// Appends text to the buffer the reference context writes into.
    fn app_to_ctx(&mut self, ctx: CharRefCtx, lit: &Vec<char>)
        requires
            old(self).wf(),
        ensures
            final(self).wf(),
            final(self).model() == app_ctx(old(self).model(), ctx, lit@),
            final(self).toks() == old(self).toks(),
    {
        match ctx {
            CharRefCtx::InData => push_all(&mut self.chars, lit),
            _ => push_all(&mut self.attr_value, lit),
        }
        proof {
            assert(self.model() =~= app_ctx(old(self).model(), ctx, lit@));
        }
    }

    /// Abandons a reference: literal text kept, error reported, character
    /// reprocessed.
    fn ref_abandon_char(&mut self, ctx: CharRefCtx, c: char)
        requires
            old(self).wf(),
        ensures
            final(self).wf(),
            final(self).model() == ref_abandon(old(self).model(), ctx, c).st,
            final(self).toks() == old(self).toks() + ref_abandon(old(self).model(), ctx, c).out,
    {
        let buf = take_vec(&mut self.ref_buf);
        let mut lit: Vec<char> = Vec::new();
        lit.push('&');
        push_all(&mut lit, &buf);
        self.app_to_ctx(ctx, &lit);
        self.report("invalid character reference");
        self.ctx_char(ctx, c);
        proof {
            assert(self.model() =~= ref_abandon(old(self).model(), ctx, c).st);
            assert(self.toks() =~= old(self).toks() + ref_abandon(old(self).model(), ctx, c).out);
        }
    }

    fn step_tag(&mut self, c: char)
        requires
            old(self).wf(),
            old(self).model().started,
            (old(self).model().state is TagOpen || old(self).model().state is EndTagOpen || old(self).model().state is TagName || old(self).model().state is EndTagName || old(self).model().state is BeforeAttrName || old(self).model().state is AttrName || old(self).model().state is AfterAttrName || old(self).model().state is BeforeAttrValue || old(self).model().state is AttrValueDq || old(self).model().state is AttrValueSq || old(self).model().state is AttrValueUq || old(self).model().state is AfterAttrValueQ || old(self).model().state is SelfClosing),
        ensures
            final(self).wf(),
            final(self).model() == tok_step(old(self).model(), c).st,
            final(self).toks() == old(self).toks() + tok_step(old(self).model(), c).out,
    {
        let ghost m1 = old(self).model();
        proof {
            assert((TokModel { started: true, ..m1 }) =~= m1);
        }
        match self.state {XmlState::TagOpen => {
                if c == '!' {
                    self.state = XmlState::BangOpen;
                } else if c == '?' {
                    self.state = XmlState::PiTarget;
                    self.pi_target.clear();
                    self.pi_data.clear();
                } else if c == '/' {
                    self.state = XmlState::EndTagOpen;
                } else if name_start(c) {
                    self.start_tag_buf(c, false, XmlState::TagName);
                } else {
                    self.chars.push('<');
                    self.report("unexpected character after <");
                    self.data_char(c);
                }

                proof {
                    assert(self.model() =~= st_tag_open(m1, c).st);
                    assert(self.toks() =~= old(self).toks() + st_tag_open(m1, c).out);
                }
            },
            XmlState::EndTagOpen => {
                if name_start(c) {
                    self.start_tag_buf(c, true, XmlState::EndTagName);
                } else if c == '>' {
                    self.state = XmlState::Data;
                    self.report("empty end tag");
                } else {
                    self.state = XmlState::BogusComment;
                    self.comment.clear();
                    self.comment.push(c);
                    self.report("unexpected character after </");
                }

                proof {
                    assert(self.model() =~= st_end_tag_open(m1, c).st);
                    assert(self.toks() =~= old(self).toks() + st_end_tag_open(m1, c).out);
                }
            },
            XmlState::TagName | XmlState::EndTagName => {
                if ws(c) {
                    self.state = XmlState::BeforeAttrName;
                } else if c == '/' {
                    self.state = XmlState::SelfClosing;
                } else if c == '>' {
                    self.do_emit_tag();
                } else {
                    self.tag_name.push(c);
                }

                proof {
                    assert(self.model() =~= st_tag_name(m1, c).st);
                    assert(self.toks() =~= old(self).toks() + st_tag_name(m1, c).out);
                }
            },
            XmlState::BeforeAttrName => {
                if ws(c) {
                } else if c == '/' {
                    self.state = XmlState::SelfClosing;
                } else if c == '>' {
                    self.do_emit_tag();
                } else {
                    self.state = XmlState::AttrName;
                    self.attr_name.clear();
                    self.attr_name.push(c);
                    self.attr_value.clear();
                }

                proof {
                    assert(self.model() =~= st_before_attr_name(m1, c).st);
                    assert(self.toks() =~= old(self).toks() + st_before_attr_name(m1, c).out);
                }
            },
            XmlState::AttrName => {
                if ws(c) {
                    self.state = XmlState::AfterAttrName;
                } else if c == '=' {
                    self.state = XmlState::BeforeAttrValue;
                } else if c == '/' {
                    self.do_finish_attr();
                    self.state = XmlState::SelfClosing;
                } else if c == '>' {
                    self.do_finish_attr();
                    self.do_emit_tag();
                } else {
                    self.attr_name.push(c);
                }

                proof {
                    assert(self.model() =~= st_attr_name(m1, c).st);
                    assert(self.toks() =~= old(self).toks() + st_attr_name(m1, c).out);
                }
            },
            XmlState::AfterAttrName => {
                if ws(c) {
                } else if c == '=' {
                    self.state = XmlState::BeforeAttrValue;
                } else if c == '/' {
                    self.do_finish_attr();
                    self.state = XmlState::SelfClosing;
                } else if c == '>' {
                    self.do_finish_attr();
                    self.do_emit_tag();
                } else {
                    self.do_finish_attr();
                    self.state = XmlState::AttrName;
                    self.attr_name.push(c);
                }

                proof {
                    assert(self.model() =~= st_after_attr_name(m1, c).st);
                    assert(self.toks() =~= old(self).toks() + st_after_attr_name(m1, c).out);
                }
            },
            XmlState::BeforeAttrValue => {
                if ws(c) {
                } else if c == '"' {
                    self.state = XmlState::AttrValueDq;
                } else if c == '\'' {
                    self.state = XmlState::AttrValueSq;
                } else if c == '>' {
                    self.report("attribute without a value");
                    self.do_finish_attr();
                    self.do_emit_tag();
                } else if c == '&' {
                    self.state = XmlState::CharRefStart { ctx: CharRefCtx::InUq };
                    self.ref_buf.clear();
                    self.ref_value = 0;
                } else {
                    self.state = XmlState::AttrValueUq;
                    self.attr_value.clear();
                    self.attr_value.push(c);
                }

                proof {
                    assert(self.model() =~= st_before_attr_value(m1, c).st);
                    assert(self.toks() =~= old(self).toks() + st_before_attr_value(m1, c).out);
                }
            },
            XmlState::AttrValueDq => {
                self.quoted_value_char(c, '"', CharRefCtx::InDq);

            },
            XmlState::AttrValueSq => {
                self.quoted_value_char(c, '\'', CharRefCtx::InSq);

            },
            XmlState::AttrValueUq => {
                self.unquoted_value_char(c);

            },
            XmlState::AfterAttrValueQ => {
                if ws(c) {
                    self.state = XmlState::BeforeAttrName;
                } else if c == '/' {
                    self.state = XmlState::SelfClosing;
                } else if c == '>' {
                    self.do_emit_tag();
                } else {
                    self.report("missing whitespace between attributes");
                    self.state = XmlState::AttrName;
                    self.attr_name.clear();
                    self.attr_name.push(c);
                    self.attr_value.clear();
                }

                proof {
                    assert(self.model() =~= st_after_attr_value_q(m1, c).st);
                    assert(self.toks() =~= old(self).toks() + st_after_attr_value_q(m1, c).out);
                }
            },
            XmlState::SelfClosing => {
                if c == '>' {
                    self.self_closing = true;
                    self.do_emit_tag();
                } else if ws(c) {
                    self.report("unexpected character after /");
                    self.state = XmlState::BeforeAttrName;
                } else if c == '/' {
                    self.report("unexpected character after /");
                } else {
                    self.report("unexpected character after /");
                    self.state = XmlState::AttrName;
                    self.attr_name.clear();
                    self.attr_name.push(c);
                    self.attr_value.clear();
                }

                proof {
                    assert(self.model() =~= st_self_closing(m1, c).st);
                    assert(self.toks() =~= old(self).toks() + st_self_closing(m1, c).out);
                }
            },
            _ => {
                proof {
                    assert(false);
                }
            },
        }
        proof {
            assert(self.model() =~= tok_step(m1, c).st);
            assert(self.toks() =~= old(self).toks() + tok_step(m1, c).out);
        }
    }

    fn step_comment(&mut self, c: char)
        requires
            old(self).wf(),
            old(self).model().started,
            (old(self).model().state is BangOpen || old(self).model().state is BangDash || old(self).model().state is CommentStart || old(self).model().state is CommentStartDash || old(self).model().state is Comment || old(self).model().state is CommentEndDash || old(self).model().state is CommentEnd),
        ensures
            final(self).wf(),
            final(self).model() == tok_step(old(self).model(), c).st,
            final(self).toks() == old(self).toks() + tok_step(old(self).model(), c).out,
    {
        let ghost m1 = old(self).model();
        proof {
            assert((TokModel { started: true, ..m1 }) =~= m1);
        }
        match self.state {XmlState::BangOpen => {
                if c == '-' {
                    self.state = XmlState::BangDash;
                } else if c == '[' {
                    if self.depth > 0 {
                        self.state = XmlState::CdataPrefix { matched: 0 };
                    } else {
                        self.state = XmlState::BogusComment;
                        self.comment.clear();
                        self.comment.push(c);
                        self.report("CDATA section outside element content");
                    }
                } else if c == 'D' || c == 'd' {
                    self.state = XmlState::DoctypeKw { matched: 0 };
                } else {
                    self.state = XmlState::BogusComment;
                    self.comment.clear();
                    self.comment.push(c);
                    self.report("unexpected markup declaration");
                }

                proof {
                    assert(self.model() =~= st_bang_open(m1, c).st);
                    assert(self.toks() =~= old(self).toks() + st_bang_open(m1, c).out);
                }
            },
            XmlState::BangDash => {
                if c == '-' {
                    self.state = XmlState::CommentStart;
                    self.comment.clear();
                } else {
                    self.state = XmlState::BogusComment;
                    self.comment.clear();
                    self.comment.push('-');
                    self.comment.push(c);
                    self.report("unexpected markup declaration");
                }

                proof {
                    assert(self.model() =~= st_bang_dash(m1, c).st);
                    assert(self.toks() =~= old(self).toks() + st_bang_dash(m1, c).out);
                }
            },
            XmlState::CommentStart => {
                if c == '-' {
                    self.state = XmlState::CommentStartDash;
                } else if c == '>' {
                    self.state = XmlState::Data;
                    self.report("comment closed too early");
                    let text = take_vec(&mut self.comment);
                    self.emit(Token::Comment { text });
                } else {
                    self.state = XmlState::Comment;
                    self.comment.push(c);
                }

                proof {
                    assert(self.model() =~= st_comment_start(m1, c).st);
                    assert(self.toks() =~= old(self).toks() + st_comment_start(m1, c).out);
                }
            },
            XmlState::CommentStartDash => {
                if c == '-' {
                    self.state = XmlState::CommentEnd;
                } else if c == '>' {
                    self.state = XmlState::Data;
                    self.report("comment closed too early");
                    let text = take_vec(&mut self.comment);
                    self.emit(Token::Comment { text });
                } else {
                    self.state = XmlState::Comment;
                    self.comment.push('-');
                    self.comment.push(c);
                }

                proof {
                    assert(self.model() =~= st_comment_start_dash(m1, c).st);
                    assert(self.toks() =~= old(self).toks() + st_comment_start_dash(m1, c).out);
                }
            },
            XmlState::Comment => {
                if c == '-' {
                    self.state = XmlState::CommentEndDash;
                } else {
                    self.comment.push(c);
                }

                proof {
                    assert(self.model() =~= st_comment(m1, c).st);
                    assert(self.toks() =~= old(self).toks() + st_comment(m1, c).out);
                }
            },
            XmlState::CommentEndDash => {
                if c == '-' {
                    self.state = XmlState::CommentEnd;
                } else {
                    self.state = XmlState::Comment;
                    self.comment.push('-');
                    self.comment.push(c);
                }

                proof {
                    assert(self.model() =~= st_comment_end_dash(m1, c).st);
                    assert(self.toks() =~= old(self).toks() + st_comment_end_dash(m1, c).out);
                }
            },
            XmlState::CommentEnd => {
                if c == '>' {
                    self.state = XmlState::Data;
                    let text = take_vec(&mut self.comment);
                    self.emit(Token::Comment { text });
                } else if c == '-' {
                    self.comment.push('-');
                } else {
                    self.state = XmlState::Comment;
                    self.comment.push('-');
                    self.comment.push('-');
                    self.comment.push(c);
                }

                proof {
                    assert(self.model() =~= st_comment_end(m1, c).st);
                    assert(self.toks() =~= old(self).toks() + st_comment_end(m1, c).out);
                }
            },
            _ => {
                proof {
                    assert(false);
                }
            },
        }
        proof {
            assert(self.model() =~= tok_step(m1, c).st);
            assert(self.toks() =~= old(self).toks() + tok_step(m1, c).out);
        }
    }

    fn step_cdata(&mut self, c: char)
        requires
            old(self).wf(),
            old(self).model().started,
            ((old(self).model().state matches XmlState::CdataPrefix { .. }) || old(self).model().state is Cdata || old(self).model().state is CdataBracket || old(self).model().state is CdataEnd),
        ensures
            final(self).wf(),
            final(self).model() == tok_step(old(self).model(), c).st,
            final(self).toks() == old(self).toks() + tok_step(old(self).model(), c).out,
    {
        let ghost m1 = old(self).model();
        proof {
            assert((TokModel { started: true, ..m1 }) =~= m1);
        }
        match self.state {XmlState::CdataPrefix { matched } => {
                if c == cdata_marker_at(matched) {
                    if matched >= 5 {
                        self.state = XmlState::Cdata;
                    } else {
                        self.state = XmlState::CdataPrefix { matched: matched + 1 };
                    }
                } else {
                    self.state = XmlState::BogusComment;
                    self.comment.clear();
                    self.comment.push(c);
                    self.report("malformed CDATA opening");
                }

                proof {
                    assert(self.model() =~= st_cdata_prefix(m1, c, matched).st);
                    assert(self.toks() =~= old(self).toks() + st_cdata_prefix(m1, c, matched).out);
                }
            },
            XmlState::Cdata => {
                if c == ']' {
                    self.state = XmlState::CdataBracket;
                } else {
                    self.chars.push(c);
                }

                proof {
                    assert(self.model() =~= st_cdata(m1, c).st);
                    assert(self.toks() =~= old(self).toks() + st_cdata(m1, c).out);
                }
            },
            XmlState::CdataBracket => {
                if c == ']' {
                    self.state = XmlState::CdataEnd;
                } else {
                    self.state = XmlState::Cdata;
                    self.chars.push(']');
                    self.chars.push(c);
                }

                proof {
                    assert(self.model() =~= st_cdata_bracket(m1, c).st);
                    assert(self.toks() =~= old(self).toks() + st_cdata_bracket(m1, c).out);
                }
            },
            XmlState::CdataEnd => {
                if c == '>' {
                    self.state = XmlState::Data;
                } else if c == ']' {
                    self.chars.push(']');
                } else {
                    self.state = XmlState::Cdata;
                    self.chars.push(']');
                    self.chars.push(']');
                    self.chars.push(c);
                }

                proof {
                    assert(self.model() =~= st_cdata_end(m1, c).st);
                    assert(self.toks() =~= old(self).toks() + st_cdata_end(m1, c).out);
                }
            },
            _ => {
                proof {
                    assert(false);
                }
            },
        }
        proof {
            assert(self.model() =~= tok_step(m1, c).st);
            assert(self.toks() =~= old(self).toks() + tok_step(m1, c).out);
        }
    }

    fn step_doctype(&mut self, c: char)
        requires
            old(self).wf(),
            old(self).model().started,
            ((old(self).model().state matches XmlState::DoctypeKw { .. }) || old(self).model().state is BeforeDoctypeName || old(self).model().state is DoctypeName || old(self).model().state is DoctypeRest),
        ensures
            final(self).wf(),
            final(self).model() == tok_step(old(self).model(), c).st,
            final(self).toks() == old(self).toks() + tok_step(old(self).model(), c).out,
    {
        let ghost m1 = old(self).model();
        proof {
            assert((TokModel { started: true, ..m1 }) =~= m1);
        }
        match self.state {XmlState::DoctypeKw { matched } => {
                if doctype_kw_at(matched, c) {
                    if matched >= 5 {
                        self.state = XmlState::BeforeDoctypeName;
                    } else {
                        self.state = XmlState::DoctypeKw { matched: matched + 1 };
                    }
                } else {
                    self.state = XmlState::BogusComment;
                    self.comment.clear();
                    self.comment.push(c);
                    self.report("malformed DOCTYPE keyword");
                }

                proof {
                    assert(self.model() =~= st_doctype_kw(m1, c, matched).st);
                    assert(self.toks() =~= old(self).toks() + st_doctype_kw(m1, c, matched).out);
                }
            },
            XmlState::BeforeDoctypeName => {
                if ws(c) {
                } else if c == '>' {
                    self.state = XmlState::Data;
                    self.doctype_name.clear();
                    self.doctype_data.clear();
                    self.report("DOCTYPE without a name");
                    self.emit(Token::Doctype { name: Vec::new(), data: Vec::new() });
                } else {
                    self.state = XmlState::DoctypeName;
                    self.doctype_name.clear();
                    self.doctype_name.push(c);
                    self.doctype_data.clear();
                }

                proof {
                    assert(self.model() =~= st_before_doctype_name(m1, c).st);
                    assert(self.toks() =~= old(self).toks() + st_before_doctype_name(m1, c).out);
                }
            },
            XmlState::DoctypeName => {
                if ws(c) {
                    self.state = XmlState::DoctypeRest;
                } else if c == '>' {
                    self.state = XmlState::Data;
                    let name = take_vec(&mut self.doctype_name);
                    self.doctype_data.clear();
                    self.emit(Token::Doctype { name, data: Vec::new() });
                } else {
                    self.doctype_name.push(c);
                }

                proof {
                    assert(self.model() =~= st_doctype_name(m1, c).st);
                    assert(self.toks() =~= old(self).toks() + st_doctype_name(m1, c).out);
                }
            },
            XmlState::DoctypeRest => {
                if c == '>' {
                    self.state = XmlState::Data;
                    let name = take_vec(&mut self.doctype_name);
                    let data = take_vec(&mut self.doctype_data);
                    self.emit(Token::Doctype { name, data });
                } else {
                    self.doctype_data.push(c);
                }

                proof {
                    assert(self.model() =~= st_doctype_rest(m1, c).st);
                    assert(self.toks() =~= old(self).toks() + st_doctype_rest(m1, c).out);
                }
            },
            _ => {
                proof {
                    assert(false);
                }
            },
        }
        proof {
            assert(self.model() =~= tok_step(m1, c).st);
            assert(self.toks() =~= old(self).toks() + tok_step(m1, c).out);
        }
    }

    fn step_pi(&mut self, c: char)
        requires
            old(self).wf(),
            old(self).model().started,
            (old(self).model().state is BogusComment || old(self).model().state is PiTarget || old(self).model().state is PiData || old(self).model().state is PiMaybeEnd),
        ensures
            final(self).wf(),
            final(self).model() == tok_step(old(self).model(), c).st,
            final(self).toks() == old(self).toks() + tok_step(old(self).model(), c).out,
    {
        let ghost m1 = old(self).model();
        proof {
            assert((TokModel { started: true, ..m1 }) =~= m1);
        }
        match self.state {XmlState::BogusComment => {
                if c == '>' {
                    self.state = XmlState::Data;
                    let text = take_vec(&mut self.comment);
                    self.emit(Token::Comment { text });
                } else {
                    self.comment.push(c);
                }

                proof {
                    assert(self.model() =~= st_bogus_comment(m1, c).st);
                    assert(self.toks() =~= old(self).toks() + st_bogus_comment(m1, c).out);
                }
            },
            XmlState::PiTarget => {
                if ws(c) {
                    self.state = XmlState::PiData;
                } else if c == '?' {
                    self.state = XmlState::PiMaybeEnd;
                } else {
                    self.pi_target.push(c);
                }

                proof {
                    assert(self.model() =~= st_pi_target(m1, c).st);
                    assert(self.toks() =~= old(self).toks() + st_pi_target(m1, c).out);
                }
            },
            XmlState::PiData => {
                if c == '?' {
                    self.state = XmlState::PiMaybeEnd;
                } else {
                    self.pi_data.push(c);
                }

                proof {
                    assert(self.model() =~= st_pi_data(m1, c).st);
                    assert(self.toks() =~= old(self).toks() + st_pi_data(m1, c).out);
                }
            },
            XmlState::PiMaybeEnd => {
                if c == '>' {
                    self.state = XmlState::Data;
                    let target = take_vec(&mut self.pi_target);
                    let data = take_vec(&mut self.pi_data);
                    self.emit(Token::ProcessingInstruction { target, data });
                } else if c == '?' {
                    self.pi_data.push('?');
                } else {
                    self.state = XmlState::PiData;
                    self.pi_data.push('?');
                    self.pi_data.push(c);
                }

                proof {
                    assert(self.model() =~= st_pi_maybe_end(m1, c).st);
                    assert(self.toks() =~= old(self).toks() + st_pi_maybe_end(m1, c).out);
                }
            },
            _ => {
                proof {
                    assert(false);
                }
            },
        }
        proof {
            assert(self.model() =~= tok_step(m1, c).st);
            assert(self.toks() =~= old(self).toks() + tok_step(m1, c).out);
        }
    }

    fn step_ref(&mut self, c: char)
        requires
            old(self).wf(),
            old(self).model().started,
            ((old(self).model().state matches XmlState::CharRefStart { .. }) || (old(self).model().state matches XmlState::CharRefNamed { .. }) || (old(self).model().state matches XmlState::CharRefNumStart { .. }) || (old(self).model().state matches XmlState::CharRefHexStart { .. }) || (old(self).model().state matches XmlState::CharRefDigits { .. })),
        ensures
            final(self).wf(),
            final(self).model() == tok_step(old(self).model(), c).st,
            final(self).toks() == old(self).toks() + tok_step(old(self).model(), c).out,
    {
        let ghost m1 = old(self).model();
        proof {
            assert((TokModel { started: true, ..m1 }) =~= m1);
        }
        match self.state {XmlState::CharRefStart { ctx } => {
                if c == '#' {
                    self.state = XmlState::CharRefNumStart { ctx };
                    self.ref_buf.clear();
                    self.ref_buf.push('#');
                } else if alnum(c) {
                    self.state = XmlState::CharRefNamed { ctx };
                    self.ref_buf.clear();
                    self.ref_buf.push(c);
                } else {
                    self.ref_abandon_char(ctx, c);
                }

                proof {
                    assert(self.model() =~= ref_start_step(m1, ctx, c).st);
                    assert(self.toks() =~= old(self).toks() + ref_start_step(m1, ctx, c).out);
                }
            },
            XmlState::CharRefNamed { ctx } => {
                if alnum(c) {
                    self.ref_buf.push(c);
                } else if c == ';' {
                    let name = take_vec(&mut self.ref_buf);
                    match lookup_named(&name) {
                        Some(s) => {
                            self.app_to_ctx(ctx, &s);
                            self.state = ctx_state_at(ctx);
                        },
                        None => {
                            let mut lit: Vec<char> = Vec::new();
                            lit.push('&');
                            push_all(&mut lit, &name);
                            lit.push(';');
                            self.app_to_ctx(ctx, &lit);
                            self.state = ctx_state_at(ctx);
                            self.report("unknown named character reference");
                        },
                    }
                } else {
                    self.ref_abandon_char(ctx, c);
                }

                proof {
                    assert(self.model() =~= ref_named_step(m1, ctx, c).st);
                    assert(self.toks() =~= old(self).toks() + ref_named_step(m1, ctx, c).out);
                }
            },
            XmlState::CharRefNumStart { ctx } => {
                if c == 'x' || c == 'X' {
                    self.state = XmlState::CharRefHexStart { ctx };
                    self.ref_buf.push(c);
                } else if digit(c) {
                    self.state = XmlState::CharRefDigits { ctx, hex: false };
                    self.ref_buf.push(c);
                    self.ref_value = digit_val(c);
                } else {
                    self.ref_abandon_char(ctx, c);
                }

                proof {
                    assert(self.model() =~= ref_num_start_step(m1, ctx, c).st);
                    assert(self.toks() =~= old(self).toks() + ref_num_start_step(m1, ctx, c).out);
                }
            },
            XmlState::CharRefHexStart { ctx } => {
                if hex_digit(c) {
                    self.state = XmlState::CharRefDigits { ctx, hex: true };
                    self.ref_buf.push(c);
                    self.ref_value = digit_val(c);
                } else {
                    self.ref_abandon_char(ctx, c);
                }

                proof {
                    assert(self.model() =~= ref_hex_start_step(m1, ctx, c).st);
                    assert(self.toks() =~= old(self).toks() + ref_hex_start_step(m1, ctx, c).out);
                }
            },
            XmlState::CharRefDigits { ctx, hex } => {
                let is_d = if hex {
                    hex_digit(c)
                } else {
                    digit(c)
                };
                if is_d {
                    self.ref_buf.push(c);
                    if self.ref_value < 0x110000 {
                        if hex {
                            self.ref_value = self.ref_value * 16 + digit_val(c);
                        } else {
                            self.ref_value = self.ref_value * 10 + digit_val(c);
                        }
                    }
                } else if c == ';' {
                    let dec = decode_numeric(self.ref_value);
                    let mut one: Vec<char> = Vec::new();
                    one.push(dec.0);
                    self.app_to_ctx(ctx, &one);
                    self.state = ctx_state_at(ctx);
                    self.ref_buf.clear();
                    self.ref_value = 0;
                    if dec.1 {
                        self.report("numeric reference to a disallowed codepoint");
                    }
                } else {
                    self.ref_abandon_char(ctx, c);
                }

                proof {
                    assert(self.model() =~= ref_digits_step(m1, ctx, hex, c).st);
                    assert(self.toks() =~= old(self).toks() + ref_digits_step(m1, ctx, hex, c).out);
                }
            },
            _ => {
                proof {
                    assert(false);
                }
            },
        }
        proof {
            assert(self.model() =~= tok_step(m1, c).st);
            assert(self.toks() =~= old(self).toks() + tok_step(m1, c).out);
        }
    }

    /// One step of the machine on one input character.
    #[verifier::rlimit(100)]
    #[verifier::spinoff_prover]
    fn step(&mut self, c: char)
        requires
            old(self).wf(),
        ensures
            final(self).wf(),
            final(self).model() == tok_step(old(self).model(), c).st,
            final(self).toks() == old(self).toks() + tok_step(old(self).model(), c).out,
    {
        if !self.started && self.opts.discard_bom && c == '\u{feff}' {
            self.started = true;
            proof {
                assert(self.model() =~= tok_step(old(self).model(), c).st);
                assert(self.toks() =~= old(self).toks() + tok_step(old(self).model(), c).out);
            }
            return;
        }
        self.started = true;
        let ghost m1 = TokModel { started: true, ..old(self).model() };
        match self.state {
            XmlState::Data => {
                self.data_char(c);

            },

            XmlState::TagOpen | XmlState::EndTagOpen | XmlState::TagName | XmlState::EndTagName | XmlState::BeforeAttrName | XmlState::AttrName | XmlState::AfterAttrName | XmlState::BeforeAttrValue | XmlState::AttrValueDq | XmlState::AttrValueSq | XmlState::AttrValueUq | XmlState::AfterAttrValueQ | XmlState::SelfClosing => self.step_tag(c),

            XmlState::BangOpen | XmlState::BangDash | XmlState::CommentStart | XmlState::CommentStartDash | XmlState::Comment | XmlState::CommentEndDash | XmlState::CommentEnd => self.step_comment(c),

            XmlState::CdataPrefix { .. } | XmlState::Cdata | XmlState::CdataBracket | XmlState::CdataEnd => self.step_cdata(c),

            XmlState::DoctypeKw { .. } | XmlState::BeforeDoctypeName | XmlState::DoctypeName | XmlState::DoctypeRest => self.step_doctype(c),

            XmlState::BogusComment | XmlState::PiTarget | XmlState::PiData | XmlState::PiMaybeEnd => self.step_pi(c),

            XmlState::CharRefStart { .. } | XmlState::CharRefNamed { .. } | XmlState::CharRefNumStart { .. } | XmlState::CharRefHexStart { .. } | XmlState::CharRefDigits { .. } => self.step_ref(c),
        }
        proof {
            assert((TokModel { started: true, ..old(self).model() }) =~= m1);
            assert(self.model() =~= tok_step(old(self).model(), c).st);
            assert(self.toks() =~= old(self).toks() + tok_step(old(self).model(), c).out);
        }
    }

    /// Starts a fresh tag in the scratch buffers.
    fn start_tag_buf(&mut self, c: char, end_tag: bool, st: XmlState)
        requires
            old(self).wf(),
        ensures
            final(self).wf(),
            final(self).model() == start_tag_with(old(self).model(), c, end_tag, st),
            final(self).toks() == old(self).toks(),
    {
        self.state = st;
        self.tag_name.clear();
        self.tag_name.push(c);
        self.end_tag = end_tag;
        self.self_closing = false;
        self.attrs = Vec::new();
        self.attr_name.clear();
        self.attr_value.clear();
        proof {
            assert(self.model() =~= start_tag_with(old(self).model(), c, end_tag, st));
        }
    }

    /// Feeds one chunk of input, driving the machine over each character.
    #[verifier::rlimit(100)]
    pub fn feed(&mut self, input: &str)
        requires
            old(self).wf(),
        ensures
            final(self).wf(),
            final(self).model() == tok_feed(old(self).model(), input@).st,
            final(self).toks() == old(self).toks() + tok_feed(old(self).model(), input@).out,
    {
        let n = input.unicode_len();
        let mut i: usize = 0;
        proof {
            assert(input@.take(0) =~= Seq::<char>::empty());
            assert(old(self).toks() + tok_feed(old(self).model(), input@.take(0)).out =~= old(
                self,
            ).toks());
        }
        while i < n
            invariant
                i <= n,
                n == input@.len(),
                self.wf(),
                self.model() == tok_feed(old(self).model(), input@.take(i as int)).st,
                self.toks() == old(self).toks() + tok_feed(
                    old(self).model(),
                    input@.take(i as int),
                ).out,
            decreases n - i,
        {
            let c = input.get_char(i);
            proof {
                lemma_feed_snoc(old(self).model(), input@.take(i as int), c);
                assert(input@.take(i + 1) =~= input@.take(i as int).push(input@[i as int]));
            }
            self.step(c);
            i = i + 1;
            proof {
                assert(self.toks() =~= old(self).toks() + tok_feed(
                    old(self).model(),
                    input@.take(i as int),
                ).out);
            }
        }
        proof {
            assert(input@.take(n as int) =~= input@);
        }
    }

    #[verifier::rlimit(100)]
    #[verifier::spinoff_prover]
    fn end_in_tag(&mut self)
        requires
            old(self).wf(),
            (old(self).model().state is TagOpen || old(self).model().state is EndTagOpen || old(self).model().state is TagName || old(self).model().state is EndTagName || old(self).model().state is BeforeAttrName || old(self).model().state is AfterAttrValueQ || old(self).model().state is SelfClosing || old(self).model().state is AttrName || old(self).model().state is AfterAttrName || old(self).model().state is BeforeAttrValue || old(self).model().state is AttrValueDq || old(self).model().state is AttrValueSq || old(self).model().state is AttrValueUq),
        ensures
            final(self).wf(),
            final(self).toks() == old(self).toks() + end_pre(old(self).model()),
    {
        let ghost m0 = old(self).model();
        match self.state {XmlState::TagOpen => {
                self.chars.push('<');
                self.flush_chars();
                self.report("end of input after <");
                proof {
                    assert(self.toks() =~= old(self).toks() + end_pre(m0));
                }
            },
            XmlState::EndTagOpen => {
                self.chars.push('<');
                self.chars.push('/');
                self.flush_chars();
                self.report("end of input after </");
                proof {
                    assert(self.toks() =~= old(self).toks() + end_pre(m0));
                }
            },
            XmlState::TagName | XmlState::EndTagName | XmlState::BeforeAttrName
                | XmlState::AfterAttrValueQ | XmlState::SelfClosing => {
                self.flush_chars();
                self.report("end of input inside a tag");
                self.do_emit_tag();
                proof {
                    assert(self.toks() =~= old(self).toks() + end_pre(m0));
                }
            },
            XmlState::AttrName | XmlState::AfterAttrName | XmlState::BeforeAttrValue
                | XmlState::AttrValueDq | XmlState::AttrValueSq | XmlState::AttrValueUq => {
                self.flush_chars();
                self.report("end of input inside a tag");
                self.do_finish_attr();
                self.do_emit_tag();
                proof {
                    assert(self.toks() =~= old(self).toks() + end_pre(m0));
                }
            },
            _ => {
                proof {
                    assert(false);
                }
            },
        }
    }

    #[verifier::rlimit(100)]
    #[verifier::spinoff_prover]
    fn end_in_markup(&mut self)
        requires
            old(self).wf(),
            (old(self).model().state is BangOpen || old(self).model().state is BangDash || old(self).model().state is CommentStart || old(self).model().state is CommentStartDash || old(self).model().state is Comment || old(self).model().state is CommentEndDash || old(self).model().state is CommentEnd || (old(self).model().state matches XmlState::CdataPrefix { .. }) || old(self).model().state is Cdata || old(self).model().state is CdataBracket || old(self).model().state is CdataEnd),
        ensures
            final(self).wf(),
            final(self).toks() == old(self).toks() + end_pre(old(self).model()),
    {
        let ghost m0 = old(self).model();
        match self.state {XmlState::BangOpen | XmlState::BangDash => {
                self.flush_chars();
                self.report("end of input in markup declaration");
                proof {
                    assert(self.toks() =~= old(self).toks() + end_pre(m0));
                }
            },
            XmlState::CommentStart | XmlState::CommentStartDash | XmlState::Comment
                | XmlState::CommentEndDash | XmlState::CommentEnd => {
                self.flush_chars();
                self.report("end of input in comment");
                let text = take_vec(&mut self.comment);
                self.emit(Token::Comment { text });
                proof {
                    assert(self.toks() =~= old(self).toks() + end_pre(m0));
                }
            },
            XmlState::CdataPrefix { .. } => {
                self.flush_chars();
                self.report("end of input in CDATA opening");
                proof {
                    assert(self.toks() =~= old(self).toks() + end_pre(m0));
                }
            },
            XmlState::Cdata | XmlState::CdataBracket | XmlState::CdataEnd => {
                self.flush_chars();
                self.report("end of input in CDATA section");
                proof {
                    assert(self.toks() =~= old(self).toks() + end_pre(m0));
                }
            },
            _ => {
                proof {
                    assert(false);
                }
            },
        }
    }

    #[verifier::rlimit(100)]
    #[verifier::spinoff_prover]
    fn end_in_decl(&mut self)
        requires
            old(self).wf(),
            ((old(self).model().state matches XmlState::DoctypeKw { .. }) || old(self).model().state is BeforeDoctypeName || old(self).model().state is DoctypeName || old(self).model().state is DoctypeRest || old(self).model().state is BogusComment || old(self).model().state is PiTarget || old(self).model().state is PiData || old(self).model().state is PiMaybeEnd),
        ensures
            final(self).wf(),
            final(self).toks() == old(self).toks() + end_pre(old(self).model()),
    {
        let ghost m0 = old(self).model();
        match self.state {XmlState::DoctypeKw { .. } => {
                self.flush_chars();
                self.report("end of input in DOCTYPE keyword");
                proof {
                    assert(self.toks() =~= old(self).toks() + end_pre(m0));
                }
            },
            XmlState::BeforeDoctypeName => {
                self.flush_chars();
                self.report("end of input in DOCTYPE");
                self.emit(Token::Doctype { name: Vec::new(), data: Vec::new() });
                proof {
                    assert(self.toks() =~= old(self).toks() + end_pre(m0));
                }
            },
            XmlState::DoctypeName | XmlState::DoctypeRest => {
                self.flush_chars();
                self.report("end of input in DOCTYPE");
                let name = take_vec(&mut self.doctype_name);
                let data = take_vec(&mut self.doctype_data);
                self.emit(Token::Doctype { name, data });
                proof {
                    assert(self.toks() =~= old(self).toks() + end_pre(m0));
                }
            },
            XmlState::BogusComment => {
                self.flush_chars();
                self.report("end of input in markup declaration");
                let text = take_vec(&mut self.comment);
                self.emit(Token::Comment { text });
                proof {
                    assert(self.toks() =~= old(self).toks() + end_pre(m0));
                }
            },
            XmlState::PiTarget | XmlState::PiData | XmlState::PiMaybeEnd => {
                self.flush_chars();
                self.report("end of input in processing instruction");
                let target = take_vec(&mut self.pi_target);
                let data = take_vec(&mut self.pi_data);
                self.emit(Token::ProcessingInstruction { target, data });
                proof {
                    assert(self.toks() =~= old(self).toks() + end_pre(m0));
                }
            },
            _ => {
                proof {
                    assert(false);
                }
            },
        }
    }

    #[verifier::rlimit(100)]
    #[verifier::spinoff_prover]
    fn end_in_ref(&mut self)
        requires
            old(self).wf(),
            ((old(self).model().state matches XmlState::CharRefStart { .. }) || (old(self).model().state matches XmlState::CharRefNamed { .. }) || (old(self).model().state matches XmlState::CharRefNumStart { .. }) || (old(self).model().state matches XmlState::CharRefHexStart { .. }) || (old(self).model().state matches XmlState::CharRefDigits { .. })),
        ensures
            final(self).wf(),
            final(self).toks() == old(self).toks() + end_pre(old(self).model()),
    {
        let ghost m0 = old(self).model();
        match self.state {
            XmlState::CharRefStart { ctx } | XmlState::CharRefNamed { ctx }
                | XmlState::CharRefNumStart { ctx } | XmlState::CharRefHexStart { ctx }
                | XmlState::CharRefDigits { ctx, .. } => {
                proof {
                    assert(end_state_tokens(m0) == end_ref(m0, ctx));
                }
                let buf = take_vec(&mut self.ref_buf);
                let mut lit: Vec<char> = Vec::new();
                lit.push('&');
                push_all(&mut lit, &buf);
                proof {
                    assert(lit@ =~= seq!['&'] + m0.ref_buf);
                }
                self.app_to_ctx(ctx, &lit);
                let ghost m2 = TokModel {
                    state: ctx_state(ctx),
                    ref_buf: Seq::empty(),
                    ..app_ctx(m0, ctx, seq!['&'] + m0.ref_buf)
                };
                match ctx {
                    CharRefCtx::InData => {
                        self.state = XmlState::Data;
                        proof {
                            assert(self.model() =~= m2);
                        }
                        self.flush_chars();
                        self.report("end of input in character reference");
                        proof {
                            assert(m2.chars.len() > 0);
                            assert(end_pre(m0) =~= seq![
                                SpecToken::Characters { text: m2.chars },
                                err(desc_of(m0.exact_errors, "end of input in character reference"@)),
                            ]);
                            assert(self.toks() =~= old(self).toks() + end_pre(m0));
                        }
                    },
                    _ => {
                        self.state = ctx_state_at(ctx);
                        proof {
                            assert(self.model() =~= m2);
                        }
                        self.end_in_ref_attr(ctx, Ghost(m0), Ghost(m2));
                    },
                }
            },
            _ => {
                proof {
                    assert(false);
                }
            },
        }
    }

    /// End of input inside a reference entered from an attribute value:
    /// the unterminated tag is resolved after the literal text was kept.
    #[verifier::rlimit(100)]
    #[verifier::spinoff_prover]
    fn end_in_ref_attr(
        &mut self,
        ctx: CharRefCtx,
        Ghost(m0): Ghost<TokModel>,
        Ghost(m2): Ghost<TokModel>,
    )
        requires
            old(self).wf(),
            (!(ctx is InData)),
            old(self).model() == m2,
            end_state_tokens(m0) == end_ref(m0, ctx),
            m2 == (TokModel {
                state: ctx_state(ctx),
                ref_buf: Seq::empty(),
                ..app_ctx(m0, ctx, seq!['&'] + m0.ref_buf)
            }),
        ensures
            final(self).wf(),
            final(self).toks() == old(self).toks() + end_pre(m0),
    {
        self.flush_chars();
        self.report("end of input in character reference");
        self.report("end of input inside a tag");
        let ghost m3 = self.model();
        proof {
            assert(m3 =~= (TokModel { chars: Seq::empty(), ..m2 }));
        }
        self.do_finish_attr();
        self.do_emit_tag();
        proof {
            let f = finish_attr(m2);
            let e = emit_tag(f.st);
            assert(finish_attr(m3).out =~= f.out);
            assert(finish_attr(m3).st =~= (TokModel { chars: Seq::empty(), ..f.st }));
            assert(emit_tag(finish_attr(m3).st).out =~= e.out);
            assert(end_ref(m0, ctx).out =~= seq![
                err(desc_of(m0.exact_errors, "end of input in character reference"@)),
                err(desc_of(m0.exact_errors, "end of input inside a tag"@)),
            ] + f.out + e.out);
            assert(end_ref(m0, ctx).st.chars == m2.chars);
            assert(end_pre(m0) =~= (if m2.chars.len() > 0 {
                seq![SpecToken::Characters { text: m2.chars }]
            } else {
                Seq::<SpecToken>::empty()
            }) + end_ref(m0, ctx).out);
            assert(self.toks() =~= old(self).toks() + end_pre(m0));
        }
    }

    /// Signals end of input: anything unterminated is resolved with a
    /// parse error and a best-effort token, the pending character run is
    /// flushed, and a final `Eof` token is delivered.
    #[verifier::rlimit(100)]
    #[verifier::spinoff_prover]
    pub fn end(&mut self)
        requires
            old(self).wf(),
        ensures
            final(self).wf(),
            final(self).toks() == old(self).toks() + tok_end(old(self).model()),
    {
        let ghost m0 = self.model();
        match self.state {
            XmlState::Data => {
                self.flush_chars();
                proof {
                    assert(self.toks() =~= old(self).toks() + end_pre(m0));
                }
            },

            XmlState::TagOpen | XmlState::EndTagOpen | XmlState::TagName | XmlState::EndTagName | XmlState::BeforeAttrName | XmlState::AfterAttrValueQ | XmlState::SelfClosing | XmlState::AttrName | XmlState::AfterAttrName | XmlState::BeforeAttrValue | XmlState::AttrValueDq | XmlState::AttrValueSq | XmlState::AttrValueUq => self.end_in_tag(),

            XmlState::BangOpen | XmlState::BangDash | XmlState::CommentStart | XmlState::CommentStartDash | XmlState::Comment | XmlState::CommentEndDash | XmlState::CommentEnd | XmlState::CdataPrefix { .. } | XmlState::Cdata | XmlState::CdataBracket | XmlState::CdataEnd => self.end_in_markup(),

            XmlState::DoctypeKw { .. } | XmlState::BeforeDoctypeName | XmlState::DoctypeName | XmlState::DoctypeRest | XmlState::BogusComment | XmlState::PiTarget | XmlState::PiData | XmlState::PiMaybeEnd => self.end_in_decl(),

            XmlState::CharRefStart { .. } | XmlState::CharRefNamed { .. } | XmlState::CharRefNumStart { .. } | XmlState::CharRefHexStart { .. } | XmlState::CharRefDigits { .. } => self.end_in_ref(),
        }
        self.emit(Token::Eof);
        proof {
            assert(self.toks() =~= (old(self).toks() + end_pre(m0)).push(SpecToken::Eof));
            assert(self.toks() =~= old(self).toks() + tok_end(m0));
        }
    }
}

/// Character `i` of the CDATA opening marker.
fn cdata_marker_at(i: u8) -> (r: char)
    ensures
        r == cdata_marker(i as int),
{
    if i == 0 {
        'C'
    } else if i == 1 {
        'D'
    } else if i == 2 {
        'A'
    } else if i == 3 {
        'T'
    } else if i == 4 {
        'A'
    } else {
        '['
    }
}

/// Case-insensitive test of position `i` of the DOCTYPE keyword.
fn doctype_kw_at(i: u8, c: char) -> (r: bool)
    ensures
        r == doctype_kw_match(i as int, c),
{
    if i == 0 {
        c == 'O' || c == 'o'
    } else if i == 1 {
        c == 'C' || c == 'c'
    } else if i == 2 {
        c == 'T' || c == 't'
    } else if i == 3 {
        c == 'Y' || c == 'y'
    } else if i == 4 {
        c == 'P' || c == 'p'
    } else {
        c == 'E' || c == 'e'
    }
}

/// The lexical mode a reference context returns to.
fn ctx_state_at(ctx: CharRefCtx) -> (r: XmlState)
    ensures
        r == ctx_state(ctx),
{
    match ctx {
        CharRefCtx::InData => XmlState::Data,
        CharRefCtx::InDq => XmlState::AttrValueDq,
        CharRefCtx::InSq => XmlState::AttrValueSq,
        CharRefCtx::InUq => XmlState::AttrValueUq,
    }
}

/// True when the finished attributes already contain `name`.
fn attrs_contain(attrs: &Vec<Attribute>, name: &Vec<char>) -> (r: bool)
    ensures
        r == has_attr(attrs.deep_view(), name@),
{
    let mut i: usize = 0;
    while i < attrs.len()
        invariant
            i <= attrs@.len(),
            forall|j: int| 0 <= j < i ==> (#[trigger] attrs.deep_view()[j]).name != name@,
        decreases attrs@.len() - i,
    {
        if eq_vec(&attrs[i].name, name) {
            proof {
                assert(attrs.deep_view()[i as int].name == name@);
            }
            return true;
        }
        i = i + 1;
    }
    false
}

/// Index of the first colon in `v`, if any.
fn find_colon(v: &Vec<char>) -> (r: Option<usize>)
    ensures
        match r {
            Some(i) => first_colon_from(v@, 0) == i && i < v@.len(),
            None => first_colon_from(v@, 0) == -1,
        },
{
    let mut i: usize = 0;
    while i < v.len()
        invariant
            i <= v@.len(),
            first_colon_from(v@, 0) == first_colon_from(v@, i as int),
        decreases v@.len() - i,
    {
        if v[i] == ':' {
            return Some(i);
        }
        i = i + 1;
    }
    None
}

} // verus!
