//! The mathematical model of the tree builder.
//!
//! [`TbModel`] is the abstract state: the document phase, the open-element
//! stack (with each element's namespace bindings) and how many elements
//! have been created.  [`tb_step`] says which tree-mutation operations one
//! token causes and how the stack changes; [`tb_run`] folds it over a
//! token sequence.  The stack-balance lemmas at the end show that every
//! element ever created is eventually closed.

use vstd::prelude::*;
use crate::tokens::SpecAttr;
use crate::tokens::SpecToken;
use crate::util::all_ws;

verus! {

/// Document phase: before the root element, inside content, after the
/// root element has closed.
#[derive(Clone, Copy, PartialEq, Eq, Debug)]
pub enum Phase {
    BeforeRoot,
    InContent,
    AfterRoot,
}

/// One open element: its sink handle, its qualified name as written, its
/// resolved namespace, and the namespace bindings its tag declared.
#[verifier::ext_equal]
pub struct SpecEntry {
    pub handle: nat,
    pub qname: Seq<char>,
    pub ns: Seq<char>,
    pub bindings: Seq<(Seq<char>, Seq<char>)>,
}

/// One tree-mutation operation issued to the sink, in order.
#[verifier::ext_equal]
pub enum SpecOp {
    Create { name: Seq<char>, ns: Seq<char>, attrs: Seq<SpecAttr> },
    AppendElement { parent: Option<nat>, child: nat },
    AppendText { parent: Option<nat>, text: Seq<char> },
    AppendComment { parent: Option<nat>, text: Seq<char> },
    AppendPi { parent: Option<nat>, target: Seq<char>, data: Seq<char> },
    AppendDoctype { name: Seq<char>, data: Seq<char> },
    CloseElement { handle: nat },
    ReportError { desc: Seq<char> },
    DocMeta { data: Seq<char> },
    EndDoc,
}

/// Abstract tree-builder state.
#[verifier::ext_equal]
pub struct TbModel {
    pub phase: Phase,
    pub stack: Seq<SpecEntry>,
    pub created: nat,
}

/// Result of a model transition.
#[verifier::ext_equal]
pub struct TbRes {
    pub st: TbModel,
    pub out: Seq<SpecOp>,
}

pub open spec fn tb_init(created0: nat) -> TbModel {
    TbModel { phase: Phase::BeforeRoot, stack: Seq::empty(), created: created0 }
}

pub open spec fn tbmk(st: TbModel, out: Seq<SpecOp>) -> TbRes {
    TbRes { st, out }
}

pub open spec fn err_op(desc: Seq<char>) -> SpecOp {
    SpecOp::ReportError { desc }
}

/// How many elements the operations create.
pub open spec fn num_creates(s: Seq<SpecOp>) -> nat
    decreases s.len(),
{
    if s.len() == 0 {
        0
    } else {
        num_creates(s.drop_last()) + if s.last() is Create {
            1nat
        } else {
            0nat
        }
    }
}

/// How many elements the operations close.
pub open spec fn num_closes(s: Seq<SpecOp>) -> nat
    decreases s.len(),
{
    if s.len() == 0 {
        0
    } else {
        num_closes(s.drop_last()) + if s.last() is CloseElement {
            1nat
        } else {
            0nat
        }
    }
}

pub proof fn lemma_creates_concat(a: Seq<SpecOp>, b: Seq<SpecOp>)
    ensures
        num_creates(a + b) == num_creates(a) + num_creates(b),
        num_closes(a + b) == num_closes(a) + num_closes(b),
    decreases b.len(),
{
    if b.len() == 0 {
        assert(a + b =~= a);
    } else {
        lemma_creates_concat(a, b.drop_last());
        assert((a + b).drop_last() =~= a + b.drop_last());
        assert((a + b).last() == b.last());
    }
}

/// The insertion point: the innermost open element, or the document.
pub open spec fn parent_of(m: TbModel) -> Option<nat> {
    if m.stack.len() == 0 {
        None
    } else {
        Some(m.stack.last().handle)
    }
}

/// The xmlns bindings declared by a tag's attributes: `xmlns` binds the
/// default (empty) prefix, `xmlns:p` binds `p`.
pub open spec fn bindings_of(attrs: Seq<SpecAttr>) -> Seq<(Seq<char>, Seq<char>)>
    decreases attrs.len(),
{
    if attrs.len() == 0 {
        Seq::empty()
    } else {
        let rest = bindings_of(attrs.drop_last());
        let a = attrs.last();
        if a.name == "xmlns"@ {
            rest.push((Seq::empty(), a.value))
        } else if a.name.len() > 6 && a.name.take(6) == "xmlns:"@ {
            rest.push((a.name.skip(6), a.value))
        } else {
            rest
        }
    }
}

/// Looks a prefix up in one scope, innermost declaration winning.
pub open spec fn lookup_scope(bs: Seq<(Seq<char>, Seq<char>)>, p: Seq<char>) -> Option<Seq<char>>
    decreases bs.len(),
{
    if bs.len() == 0 {
        None
    } else if bs.last().0 == p {
        Some(bs.last().1)
    } else {
        lookup_scope(bs.drop_last(), p)
    }
}

/// Walks the open-element stack from innermost to outermost scope.
pub open spec fn lookup_stack(stack: Seq<SpecEntry>, p: Seq<char>) -> Option<Seq<char>>
    decreases stack.len(),
{
    if stack.len() == 0 {
        None
    } else {
        match lookup_scope(stack.last().bindings, p) {
            Some(uri) => Some(uri),
            None => lookup_stack(stack.drop_last(), p),
        }
    }
}

/// The namespace of the reserved `xml` prefix.
pub open spec fn xml_ns() -> Seq<char> {
    "http://www.w3.org/XML/1998/namespace"@
}

/// Resolves a tag's prefix against its own bindings and the stack:
/// the resolved namespace, and whether the prefix was unbound (an error).
pub open spec fn resolve_ns(
    stack: Seq<SpecEntry>,
    bs: Seq<(Seq<char>, Seq<char>)>,
    prefix: Option<Seq<char>>,
) -> (Seq<char>, bool) {
    let p = match prefix {
        Some(p) => p,
        None => Seq::empty(),
    };
    if prefix is Some && p == "xml"@ {
        (xml_ns(), false)
    } else {
        match lookup_scope(bs, p) {
            Some(uri) => (uri, false),
            None => match lookup_stack(stack, p) {
                Some(uri) => (uri, false),
                None => (Seq::empty(), prefix is Some),
            },
        }
    }
}

/// The qualified name a start tag was written with.
pub open spec fn qname_of(prefix: Option<Seq<char>>, local: Seq<char>) -> Seq<char> {
    match prefix {
        Some(p) => p + seq![':'] + local,
        None => local,
    }
}

/// A start tag: resolve its namespace, create and append the element,
/// and push it (unless self-closing, which closes it at once).  After
/// the root has closed the tag is reported and ignored.
pub open spec fn tb_start_tag(
    m: TbModel,
    prefix: Option<Seq<char>>,
    local: Seq<char>,
    attrs: Seq<SpecAttr>,
    self_closing: bool,
) -> TbRes {
    if m.phase is AfterRoot {
        tbmk(m, seq![err_op("element after document end"@)])
    } else {
        let bs = bindings_of(attrs);
        let r = resolve_ns(m.stack, bs, prefix);
        let qname = qname_of(prefix, local);
        let h = m.created;
        let errs: Seq<SpecOp> = if r.1 {
            seq![err_op("unbound namespace prefix"@)]
        } else {
            Seq::empty()
        };
        let made = seq![
            SpecOp::Create { name: qname, ns: r.0, attrs },
            SpecOp::AppendElement { parent: parent_of(m), child: h },
        ];
        if self_closing {
            let st = TbModel {
                phase: if m.stack.len() == 0 {
                    Phase::AfterRoot
                } else {
                    Phase::InContent
                },
                created: h + 1,
                ..m
            };
            tbmk(st, errs + made + seq![SpecOp::CloseElement { handle: h }])
        } else {
            let entry = SpecEntry { handle: h, qname, ns: r.0, bindings: bs };
            let st = TbModel {
                phase: Phase::InContent,
                stack: m.stack.push(entry),
                created: h + 1,
            };
            tbmk(st, errs + made)
        }
    }
}

/// Index of the innermost open element named `name`, or -1.
pub open spec fn find_match(stack: Seq<SpecEntry>, name: Seq<char>) -> int
    decreases stack.len(),
{
    if stack.len() == 0 {
        -1
    } else if stack.last().qname == name {
        stack.len() - 1
    } else {
        find_match(stack.drop_last(), name)
    }
}

/// Closes, with a parse error each, every element strictly above index
/// `keep`, innermost first.
pub open spec fn pop_above(stack: Seq<SpecEntry>, keep: int) -> Seq<SpecOp>
    decreases stack.len(),
{
    if stack.len() <= keep + 1 || stack.len() == 0 {
        Seq::empty()
    } else {
        seq![
            err_op("unclosed element"@),
            SpecOp::CloseElement { handle: stack.last().handle },
        ] + pop_above(stack.drop_last(), keep)
    }
}

/// An end tag: pop to the nearest matching element, reporting an
/// implicit closure for each element skipped; with no match, report and
/// ignore.
pub open spec fn tb_end_tag(m: TbModel, name: Seq<char>) -> TbRes {
    let i = find_match(m.stack, name);
    if i < 0 {
        tbmk(m, seq![err_op("unmatched end tag"@)])
    } else {
        let out = pop_above(m.stack, i) + seq![
            SpecOp::CloseElement { handle: m.stack[i].handle },
        ];
        let st = TbModel {
            stack: m.stack.take(i),
            phase: if i == 0 {
                Phase::AfterRoot
            } else {
                m.phase
            },
            ..m
        };
        tbmk(st, out)
    }
}

/// A character run: content inside the root; only whitespace may stand
/// outside it, anything else is reported and ignored.
pub open spec fn tb_chars(m: TbModel, text: Seq<char>) -> TbRes {
    if m.phase is InContent {
        tbmk(m, seq![SpecOp::AppendText { parent: parent_of(m), text }])
    } else if all_ws(text) {
        tbmk(m, seq![SpecOp::AppendText { parent: None, text }])
    } else {
        tbmk(m, seq![err_op("text outside the root element"@)])
    }
}

/// A processing instruction: a reserved `xml` target before the root
/// records document metadata; anything else is appended as a node.
pub open spec fn tb_pi(m: TbModel, target: Seq<char>, data: Seq<char>) -> TbRes {
    if m.phase is BeforeRoot && target == "xml"@ {
        tbmk(m, seq![SpecOp::DocMeta { data }])
    } else {
        tbmk(m, seq![SpecOp::AppendPi { parent: parent_of(m), target, data }])
    }
}

/// A DOCTYPE is only legal before any element content.
pub open spec fn tb_doctype(m: TbModel, name: Seq<char>, data: Seq<char>) -> TbRes {
    if m.phase is BeforeRoot {
        tbmk(m, seq![SpecOp::AppendDoctype { name, data }])
    } else {
        tbmk(m, seq![err_op("misplaced DOCTYPE"@)])
    }
}

/// End of input: every element still open is implicitly closed, each
/// with a parse error, then the document ends.
pub open spec fn tb_eof(m: TbModel) -> TbRes {
    let st = TbModel { phase: Phase::AfterRoot, stack: Seq::empty(), ..m };
    tbmk(st, pop_above(m.stack, -1) + seq![SpecOp::EndDoc])
}

/// What one token does to the tree builder.
pub open spec fn tb_step(m: TbModel, t: SpecToken) -> TbRes {
    match t {
        SpecToken::StartTag { prefix, local, attrs, self_closing } => tb_start_tag(
            m,
            prefix,
            local,
            attrs,
            self_closing,
        ),
        SpecToken::EndTag { name } => tb_end_tag(m, name),
        SpecToken::Characters { text } => tb_chars(m, text),
        SpecToken::Comment { text } => tbmk(
            m,
            seq![SpecOp::AppendComment { parent: parent_of(m), text }],
        ),
        SpecToken::ProcessingInstruction { target, data } => tb_pi(m, target, data),
        SpecToken::Doctype { name, data } => tb_doctype(m, name, data),
        SpecToken::ParseError { desc } => tbmk(m, seq![err_op(desc)]),
        SpecToken::Eof => tb_eof(m),
    }
}

/// Folds [`tb_step`] over a token sequence.
pub open spec fn tb_run(m: TbModel, ts: Seq<SpecToken>) -> TbRes
    decreases ts.len(),
{
    if ts.len() == 0 {
        tbmk(m, Seq::empty())
    } else {
        let r1 = tb_step(m, ts[0]);
        let r2 = tb_run(r1.st, ts.skip(1));
        tbmk(r2.st, r1.out + r2.out)
    }
}

/// One more token at the end of a run is one more step.
pub proof fn lemma_tb_run_snoc(m: TbModel, ts: Seq<SpecToken>, t: SpecToken)
    ensures
        tb_run(m, ts.push(t)).st == tb_step(tb_run(m, ts).st, t).st,
        tb_run(m, ts.push(t)).out == tb_run(m, ts).out + tb_step(tb_run(m, ts).st, t).out,
    decreases ts.len(),
{
    if ts.len() == 0 {
        reveal_with_fuel(tb_run, 3);
        assert(ts.push(t)[0] == t);
        assert(ts.push(t).skip(1) =~= Seq::<SpecToken>::empty());
        assert(tb_run(m, ts.push(t)).out =~= tb_step(m, t).out);
        assert(tb_run(m, ts).out + tb_step(m, t).out =~= tb_step(m, t).out);
    } else {
        let r1 = tb_step(m, ts[0]);
        assert(ts.push(t)[0] == ts[0]);
        assert(ts.push(t).skip(1) =~= ts.skip(1).push(t));
        lemma_tb_run_snoc(r1.st, ts.skip(1), t);
        assert(r1.out + (tb_run(r1.st, ts.skip(1)).out + tb_step(tb_run(m, ts).st, t).out) =~= (
        r1.out + tb_run(r1.st, ts.skip(1)).out) + tb_step(tb_run(m, ts).st, t).out);
    }
}

/// Element counts of a one-operation sequence.
pub proof fn lemma_count_single(s: Seq<SpecOp>)
    requires
        s.len() == 1,
    ensures
        num_creates(s) == if s[0] is Create {
            1nat
        } else {
            0nat
        },
        num_closes(s) == if s[0] is CloseElement {
            1nat
        } else {
            0nat
        },
{
    reveal_with_fuel(num_creates, 2);
    reveal_with_fuel(num_closes, 2);
    assert(s.drop_last() =~= Seq::<SpecOp>::empty());
    assert(s.last() == s[0]);
}

/// Popping part of the stack closes exactly the popped elements.
pub proof fn lemma_pop_above_balance(stack: Seq<SpecEntry>, keep: int)
    requires
        -1 <= keep,
    ensures
        num_creates(pop_above(stack, keep)) == 0,
        keep + 1 <= stack.len() ==> num_closes(pop_above(stack, keep)) == stack.len() - (keep
            + 1),
        keep + 1 >= stack.len() ==> num_closes(pop_above(stack, keep)) == 0,
    decreases stack.len(),
{
    reveal_with_fuel(num_creates, 2);
    reveal_with_fuel(num_closes, 2);
    if stack.len() == 0 || stack.len() <= keep + 1 {
    } else {
        lemma_pop_above_balance(stack.drop_last(), keep);
        let e = err_op("unclosed element"@);
        let cl = SpecOp::CloseElement { handle: stack.last().handle };
        let hd = seq![e, cl];
        assert(hd =~= seq![e] + seq![cl]);
        lemma_count_single(seq![e]);
        lemma_count_single(seq![cl]);
        lemma_creates_concat(seq![e], seq![cl]);
        lemma_creates_concat(hd, pop_above(stack.drop_last(), keep));
    }
}

/// One step keeps the books straight: elements created minus elements
/// closed equals the growth of the open-element stack.
pub proof fn lemma_tb_step_balance(m: TbModel, t: SpecToken)
    ensures
        num_creates(tb_step(m, t).out) - num_closes(tb_step(m, t).out) == tb_step(
            m,
            t,
        ).st.stack.len() - m.stack.len(),
        num_creates(tb_step(m, t).out) == tb_step(m, t).st.created - m.created,
{
    let r = tb_step(m, t);
    match t {
        SpecToken::StartTag { prefix, local, attrs, self_closing } => {
            if m.phase is AfterRoot {
                lemma_count_single(r.out);
            } else {
                let bs = bindings_of(attrs);
                let rr = resolve_ns(m.stack, bs, prefix);
                let cr = SpecOp::Create { name: qname_of(prefix, local), ns: rr.0, attrs };
                let ap = SpecOp::AppendElement { parent: parent_of(m), child: m.created };
                let errs: Seq<SpecOp> = if rr.1 {
                    seq![err_op("unbound namespace prefix"@)]
                } else {
                    Seq::empty()
                };
                let made = seq![cr, ap];
                assert(made =~= seq![cr] + seq![ap]);
                lemma_count_single(seq![cr]);
                lemma_count_single(seq![ap]);
                lemma_creates_concat(seq![cr], seq![ap]);
                if rr.1 {
                    lemma_count_single(errs);
                }
                lemma_creates_concat(errs, made);
                if self_closing {
                    let cl = SpecOp::CloseElement { handle: m.created };
                    lemma_count_single(seq![cl]);
                    lemma_creates_concat(errs + made, seq![cl]);
                }
            }
        },
        SpecToken::EndTag { name } => {
            let i = find_match(m.stack, name);
            if i < 0 {
                lemma_count_single(r.out);
            } else {
                lemma_find_match_range(m.stack, name);
                lemma_pop_above_balance(m.stack, i);
                let cl = SpecOp::CloseElement { handle: m.stack[i].handle };
                lemma_count_single(seq![cl]);
                lemma_creates_concat(pop_above(m.stack, i), seq![cl]);
            }
        },
        SpecToken::Eof => {
            lemma_pop_above_balance(m.stack, -1);
            lemma_count_single(seq![SpecOp::EndDoc]);
            lemma_creates_concat(pop_above(m.stack, -1), seq![SpecOp::EndDoc]);
        },
        _ => {
            lemma_count_single(r.out);
        },
    }
}

/// A matched index lies inside the stack.
pub proof fn lemma_find_match_range(stack: Seq<SpecEntry>, name: Seq<char>)
    ensures
        find_match(stack, name) >= 0 ==> find_match(stack, name) < stack.len(),
    decreases stack.len(),
{
    if stack.len() > 0 && stack.last().qname != name {
        lemma_find_match_range(stack.drop_last(), name);
    }
}

/// Over a whole run, created minus closed equals the stack growth.
pub proof fn lemma_tb_run_balance(m: TbModel, ts: Seq<SpecToken>)
    ensures
        num_creates(tb_run(m, ts).out) - num_closes(tb_run(m, ts).out) == tb_run(
            m,
            ts,
        ).st.stack.len() - m.stack.len(),
    decreases ts.len(),
{
    if ts.len() == 0 {
    } else {
        let r1 = tb_step(m, ts[0]);
        lemma_tb_step_balance(m, ts[0]);
        lemma_tb_run_balance(r1.st, ts.skip(1));
        lemma_creates_concat(r1.out, tb_run(r1.st, ts.skip(1)).out);
    }
}

/// Stack balance: a token sequence ending in `Eof` leaves the stack
/// empty, and every element ever created has been closed.
pub proof fn lemma_stack_balance(c0: nat, ts: Seq<SpecToken>)
    requires
        ts.len() > 0,
        ts.last() == SpecToken::Eof,
    ensures
        tb_run(tb_init(c0), ts).st.stack.len() == 0,
        num_creates(tb_run(tb_init(c0), ts).out) == num_closes(tb_run(tb_init(c0), ts).out),
{
    lemma_tb_run_snoc(tb_init(c0), ts.drop_last(), SpecToken::Eof);
    assert(ts.drop_last().push(SpecToken::Eof) =~= ts);
    lemma_tb_run_balance(tb_init(c0), ts);
}

} // verus!
