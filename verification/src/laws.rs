//! Document-level laws.
//!
//! `run_chunks` is the whole pipeline's view of chunked input; the
//! lemmas here state the headline guarantees: chunk boundaries carry no
//! meaning, and the document's element creations and closures balance.

use vstd::prelude::*;
use crate::tokens::SpecToken;
use crate::tok_model::StepRes;
use crate::tok_model::TokModel;
use crate::tok_model::lemma_feed_concat;
use crate::tok_model::mk;
use crate::tok_model::tok_end;
use crate::tok_model::tok_feed;
use crate::tok_model::tok_init;
use crate::tb_model::SpecOp;
use crate::tb_model::lemma_stack_balance;
use crate::tb_model::num_closes;
use crate::tb_model::num_creates;
use crate::tb_model::tb_init;
use crate::tb_model::tb_run;

verus! {

/// Feeds a list of chunks in order.
pub open spec fn run_chunks(m: TokModel, chunks: Seq<Seq<char>>) -> StepRes
    decreases chunks.len(),
{
    if chunks.len() == 0 {
        mk(m, Seq::empty())
    } else {
        let r1 = tok_feed(m, chunks[0]);
        let r2 = run_chunks(r1.st, chunks.skip(1));
        mk(r2.st, r1.out + r2.out)
    }
}

/// The token sequence a chunked document produces, end of input included.
pub open spec fn doc_tokens(chunks: Seq<Seq<char>>, discard_bom: bool, exact_errors: bool) -> Seq<
    SpecToken,
> {
    let r = run_chunks(tok_init(discard_bom, exact_errors), chunks);
    r.out + tok_end(r.st)
}

/// The tree-mutation operations a chunked document produces.
pub open spec fn doc_ops(chunks: Seq<Seq<char>>, discard_bom: bool, exact_errors: bool) -> Seq<
    SpecOp,
> {
    tb_run(tb_init(0), doc_tokens(chunks, discard_bom, exact_errors)).out
}

/// One more chunk at the end of a run is one more feed.
pub proof fn lemma_run_chunks_snoc(m: TokModel, chunks: Seq<Seq<char>>, c: Seq<char>)
    ensures
        run_chunks(m, chunks.push(c)).st == tok_feed(run_chunks(m, chunks).st, c).st,
        run_chunks(m, chunks.push(c)).out == run_chunks(m, chunks).out + tok_feed(
            run_chunks(m, chunks).st,
            c,
        ).out,
    decreases chunks.len(),
{
    if chunks.len() == 0 {
        reveal_with_fuel(run_chunks, 3);
        assert(chunks.push(c)[0] == c);
        assert(chunks.push(c).skip(1) =~= Seq::<Seq<char>>::empty());
        assert(run_chunks(m, chunks.push(c)).out =~= tok_feed(m, c).out);
        assert(run_chunks(m, chunks).out + tok_feed(m, c).out =~= tok_feed(m, c).out);
    } else {
        let r1 = tok_feed(m, chunks[0]);
        assert(chunks.push(c)[0] == chunks[0]);
        assert(chunks.push(c).skip(1) =~= chunks.skip(1).push(c));
        lemma_run_chunks_snoc(r1.st, chunks.skip(1), c);
        assert(r1.out + (run_chunks(r1.st, chunks.skip(1)).out + tok_feed(
            run_chunks(m, chunks).st,
            c,
        ).out) =~= (r1.out + run_chunks(r1.st, chunks.skip(1)).out) + tok_feed(
            run_chunks(m, chunks).st,
            c,
        ).out);
    }
}

/// Chunk-boundary invariance: feeding a document in any chunks is the
/// same as feeding it whole — the same final state and the very same
/// token sequence.
pub proof fn lemma_chunk_boundary_invariance(m: TokModel, chunks: Seq<Seq<char>>)
    ensures
        run_chunks(m, chunks).st == tok_feed(m, chunks.flatten()).st,
        run_chunks(m, chunks).out == tok_feed(m, chunks.flatten()).out,
    decreases chunks.len(),
{
    if chunks.len() == 0 {
        assert(chunks.flatten() =~= Seq::<char>::empty());
    } else {
        let r1 = tok_feed(m, chunks[0]);
        lemma_chunk_boundary_invariance(r1.st, chunks.skip(1));
        assert(chunks.flatten() == chunks[0] + chunks.skip(1).flatten()) by {
            assert(chunks.first() == chunks[0]);
            assert(chunks.drop_first() =~= chunks.skip(1));
        }
        lemma_feed_concat(m, chunks[0], chunks.skip(1).flatten());
    }
}

/// Corollary at document level: the token sequence — and with it the
/// final tree and the error reports — does not depend on how the input
/// was cut into chunks.
pub proof fn lemma_document_chunking_irrelevant(
    chunks: Seq<Seq<char>>,
    discard_bom: bool,
    exact_errors: bool,
)
    ensures
        doc_tokens(chunks, discard_bom, exact_errors) == doc_tokens(
            seq![chunks.flatten()],
            discard_bom,
            exact_errors,
        ),
        doc_ops(chunks, discard_bom, exact_errors) == doc_ops(
            seq![chunks.flatten()],
            discard_bom,
            exact_errors,
        ),
{
    let m0 = tok_init(discard_bom, exact_errors);
    lemma_chunk_boundary_invariance(m0, chunks);
    reveal_with_fuel(run_chunks, 3);
    let one = seq![chunks.flatten()];
    assert(one[0] == chunks.flatten());
    assert(one.skip(1) =~= Seq::<Seq<char>>::empty());
    assert(run_chunks(m0, one).out =~= tok_feed(m0, chunks.flatten()).out);
    assert(doc_tokens(chunks, discard_bom, exact_errors) =~= doc_tokens(one, discard_bom, exact_errors));
}

/// The document's tokens always end in `Eof`.
pub proof fn lemma_doc_tokens_end(chunks: Seq<Seq<char>>, discard_bom: bool, exact_errors: bool)
    ensures
        doc_tokens(chunks, discard_bom, exact_errors).len() > 0,
        doc_tokens(chunks, discard_bom, exact_errors).last() == SpecToken::Eof,
{
    let r = run_chunks(tok_init(discard_bom, exact_errors), chunks);
    assert(tok_end(r.st).last() == SpecToken::Eof);
    assert((r.out + tok_end(r.st)).last() == tok_end(r.st).last());
}

/// Stack balance at document level: for any chunked input, the build
/// closes exactly as many elements as it creates — nothing stays open
/// past the end of parsing.
pub proof fn lemma_document_balance(chunks: Seq<Seq<char>>, discard_bom: bool, exact_errors: bool)
    ensures
        num_creates(doc_ops(chunks, discard_bom, exact_errors)) == num_closes(
            doc_ops(chunks, discard_bom, exact_errors),
        ),
        tb_run(tb_init(0), doc_tokens(chunks, discard_bom, exact_errors)).st.stack.len() == 0,
{
    lemma_doc_tokens_end(chunks, discard_bom, exact_errors);
    lemma_stack_balance(0, doc_tokens(chunks, discard_bom, exact_errors));
}

} // verus!
