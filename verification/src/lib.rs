//! A forgiving, streaming XML parser.
//!
//! Input arrives as text chunks of arbitrary size; a character-level
//! tokenizer turns them into structural tokens, and a token-level tree
//! builder turns those into tree-mutation calls against an abstract sink,
//! recovering from malformed markup instead of rejecting it.
//!
//! The two state machines are specified exactly by the models in
//! `tok_model` and `tb_model`; the laws in `laws` state the headline
//! guarantees (chunk-boundary invariance, stack balance) over them.

use vstd::prelude::*;

pub mod tokens;
pub mod util;
pub mod charref;
pub mod states;
pub mod tok_model;
pub mod tokenizer;
pub mod tb_model;
pub mod tree_builder;
pub mod sinks;
pub mod laws;

use crate::laws::doc_ops;
use crate::laws::doc_tokens;
use crate::laws::lemma_run_chunks_snoc;
use crate::laws::run_chunks;
use crate::tb_model::SpecOp;
use crate::tok_model::tok_init;
use crate::tokenizer::TokenSink;
use crate::tokenizer::XmlTokenizer;
use crate::tokenizer::XmlTokenizerOpts;
use crate::tree_builder::TreeSink;
use crate::tree_builder::XmlTreeBuilder;

verus! {

/// Convenience function to turn a single value into a one-element chunk list.
pub fn one_input<T>(x: T) -> (r: Vec<T>)
    ensures
        r@.len() == 1,
        r@[0] == x,
{
    let mut v: Vec<T> = Vec::new();
    v.push(x);
    v
}

/// Parse chunked input and send the resulting tree-mutation operations
/// to a fresh `TreeSink`: the sink receives exactly the operations the
/// document model prescribes, however the input was chunked.
pub fn parse_to<S: TreeSink>(sink: S, input: &Vec<String>, opts: XmlTokenizerOpts) -> (r: S)
    requires
        sink.wf(),
        sink.ops() == Seq::<SpecOp>::empty(),
    ensures
        r.wf(),
        r.ops() == doc_ops(input.deep_view(), opts.discard_bom, opts.exact_errors),
{
    let tb = XmlTreeBuilder::new(sink);
    let mut tok = XmlTokenizer::new(tb, opts);
    let ghost m0 = tok_init(opts.discard_bom, opts.exact_errors);
    let ghost chunks = input.deep_view();
    let mut i: usize = 0;
    proof {
        assert(tok.toks() =~= run_chunks(m0, chunks.take(0)).out);
    }
    while i < input.len()
        invariant
            i <= input@.len(),
            chunks == input.deep_view(),
            chunks.len() == input@.len(),
            tok.wf(),
            tok.model() == run_chunks(m0, chunks.take(i as int)).st,
            tok.toks() == run_chunks(m0, chunks.take(i as int)).out,
        decreases input@.len() - i,
    {
        let chunk = &input[i];
        proof {
            lemma_run_chunks_snoc(m0, chunks.take(i as int), chunks[i as int]);
            assert(chunks.take(i + 1) =~= chunks.take(i as int).push(chunks[i as int]));
            assert(chunk@ == chunks[i as int]);
        }
        tok.feed(chunk.as_str());
        i = i + 1;
    }
    proof {
        assert(chunks.take(chunks.len() as int) =~= chunks);
    }
    tok.end();
    let tb2 = tok.unwrap();
    tb2.unwrap()
}

/// Tokenize chunked input and send each token to a `TokenSink`, in
/// document order: the sink receives exactly the document's tokens.
pub fn tokenize_to<S: TokenSink>(sink: S, input: &Vec<String>, opts: XmlTokenizerOpts) -> (r: S)
    requires
        sink.wf(),
    ensures
        r.wf(),
        r.toks() == sink.toks() + doc_tokens(
            input.deep_view(),
            opts.discard_bom,
            opts.exact_errors,
        ),
{
    let ghost base = sink.toks();
    let mut tok = XmlTokenizer::new(sink, opts);
    let ghost m0 = tok_init(opts.discard_bom, opts.exact_errors);
    let ghost chunks = input.deep_view();
    let mut i: usize = 0;
    proof {
        assert(tok.toks() =~= base + run_chunks(m0, chunks.take(0)).out);
    }
    while i < input.len()
        invariant
            i <= input@.len(),
            chunks == input.deep_view(),
            chunks.len() == input@.len(),
            tok.wf(),
            tok.model() == run_chunks(m0, chunks.take(i as int)).st,
            tok.toks() == base + run_chunks(m0, chunks.take(i as int)).out,
        decreases input@.len() - i,
    {
        let chunk = &input[i];
        proof {
            lemma_run_chunks_snoc(m0, chunks.take(i as int), chunks[i as int]);
            assert(chunks.take(i + 1) =~= chunks.take(i as int).push(chunks[i as int]));
            assert(chunk@ == chunks[i as int]);
        }
        tok.feed(chunk.as_str());
        i = i + 1;
        proof {
            assert(tok.toks() =~= base + run_chunks(m0, chunks.take(i as int)).out);
        }
    }
    proof {
        assert(chunks.take(chunks.len() as int) =~= chunks);
    }
    tok.end();
    proof {
        assert(tok.toks() =~= base + doc_tokens(chunks, opts.discard_bom, opts.exact_errors));
    }
    tok.unwrap()
}

/// Results which can be extracted from a `TreeSink`.
///
/// Implement this for a parse-tree type so that [`parse`] can return it.
/// `fresh_sink` hands out the empty sink the parse starts from;
/// `represents` says which sink a result was extracted from, so that
/// [`parse`]'s contract can tie the result to the document's operations.
pub trait ParseResult: Sized {
    type Sink: TreeSink;

    spec fn represents(&self, sink: Self::Sink) -> bool;

    fn fresh_sink() -> (s: Self::Sink)
        ensures
            s.wf(),
            s.ops() == Seq::<SpecOp>::empty(),
    ;

    fn get_result(sink: Self::Sink) -> (r: Self)
        ensures
            r.represents(sink),
    ;
}

/// Parse chunked input into a type which implements [`ParseResult`]:
/// the result was extracted from a well-formed sink that received
/// exactly the operations the document model prescribes.
pub fn parse<Output: ParseResult>(input: &Vec<String>, opts: XmlTokenizerOpts) -> (r: Output)
    ensures
        (exists|s: Output::Sink|
            #[trigger] r.represents(s) && s.wf() && s.ops() == doc_ops(
                input.deep_view(),
                opts.discard_bom,
                opts.exact_errors,
            )),
{
    let sink = parse_to(Output::fresh_sink(), input, opts);
    let ghost s0 = sink;
    let r = Output::get_result(sink);
    proof {
        assert(r.represents(s0) && s0.wf() && s0.ops() == doc_ops(
            input.deep_view(),
            opts.discard_bom,
            opts.exact_errors,
        ));
    }
    r
}

/// The recording sink is its own parse result.
impl ParseResult for crate::sinks::DomLog {
    type Sink = crate::sinks::DomLog;

    open spec fn represents(&self, sink: Self::Sink) -> bool {
        self == sink
    }

    fn fresh_sink() -> (s: Self::Sink) {
        crate::sinks::DomLog::new()
    }

    fn get_result(sink: Self::Sink) -> (r: Self) {
        sink
    }
}

} // verus!
