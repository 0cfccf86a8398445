//! The executable tree builder, proved to follow the model in `tb_model`.
//!
//! It consumes tokens as a [`TokenSink`], keeps the open-element stack
//! with one namespace scope per entry, and issues tree-mutation calls to
//! a caller-supplied [`TreeSink`] — exactly the operations [`tb_run`]
//! prescribes for the tokens received so far.

use vstd::prelude::*;
use crate::tokens::Attribute;
use crate::tokens::SpecToken;
use crate::tokens::Token;
use crate::tokenizer::TokenSink;
use crate::tb_model::Phase;
use crate::tb_model::SpecEntry;
use crate::tb_model::SpecOp;
use crate::tb_model::bindings_of;
use crate::tb_model::err_op;
use crate::tb_model::find_match;
use crate::tb_model::lemma_count_single;
use crate::tb_model::lemma_creates_concat;
use crate::tb_model::lemma_tb_run_snoc;
use crate::tb_model::lemma_tb_step_balance;
use crate::tb_model::num_creates;
use crate::tb_model::parent_of;
use crate::tb_model::pop_above;
use crate::tb_model::qname_of;
use crate::tb_model::resolve_ns;
use crate::tb_model::tb_chars;
use crate::tb_model::tb_doctype;
use crate::tb_model::tb_end_tag;
use crate::tb_model::tb_eof;
use crate::tb_model::tb_init;
use crate::tb_model::tb_pi;
use crate::tb_model::tb_run;
use crate::tb_model::tb_start_tag;
use crate::tb_model::tb_step;
use crate::tb_model::TbModel;
use crate::tb_model::lookup_scope;
use crate::tb_model::lookup_stack;
use crate::util::all_ws;
use crate::util::chars_of;
use crate::util::clone_vec;
use crate::util::eq_str;
use crate::util::eq_vec;
use crate::util::push_all;
use crate::util::sub_vec;
use crate::util::ws_only;

verus! {

/// The capability a caller's tree representation implements: tree-mutation
/// requests arrive in document order, and `ops` is their model.  Handles
/// are issued by the sink in creation order and are otherwise opaque.
pub trait TreeSink {
    spec fn ops(&self) -> Seq<SpecOp>;

    spec fn wf(&self) -> bool;

    fn create_element(&mut self, name: Vec<char>, ns: Vec<char>, attrs: Vec<Attribute>) -> (h:
        usize)
        requires
            old(self).wf(),
        ensures
            final(self).wf(),
            final(self).ops() == old(self).ops().push(
                SpecOp::Create { name: name@, ns: ns@, attrs: attrs.deep_view() },
            ),
            h as nat == num_creates(old(self).ops()),
    ;

    fn append_element(&mut self, parent: Option<usize>, child: usize)
        requires
            old(self).wf(),
        ensures
            final(self).wf(),
            final(self).ops() == old(self).ops().push(
                SpecOp::AppendElement { parent: opt_nat(parent), child: child as nat },
            ),
    ;

    fn append_text(&mut self, parent: Option<usize>, text: Vec<char>)
        requires
            old(self).wf(),
        ensures
            final(self).wf(),
            final(self).ops() == old(self).ops().push(
                SpecOp::AppendText { parent: opt_nat(parent), text: text@ },
            ),
    ;

    fn append_comment(&mut self, parent: Option<usize>, text: Vec<char>)
        requires
            old(self).wf(),
        ensures
            final(self).wf(),
            final(self).ops() == old(self).ops().push(
                SpecOp::AppendComment { parent: opt_nat(parent), text: text@ },
            ),
    ;

    fn append_pi(&mut self, parent: Option<usize>, target: Vec<char>, data: Vec<char>)
        requires
            old(self).wf(),
        ensures
            final(self).wf(),
            final(self).ops() == old(self).ops().push(
                SpecOp::AppendPi { parent: opt_nat(parent), target: target@, data: data@ },
            ),
    ;

    fn append_doctype(&mut self, name: Vec<char>, data: Vec<char>)
        requires
            old(self).wf(),
        ensures
            final(self).wf(),
            final(self).ops() == old(self).ops().push(
                SpecOp::AppendDoctype { name: name@, data: data@ },
            ),
    ;

    fn close_element(&mut self, h: usize)
        requires
            old(self).wf(),
        ensures
            final(self).wf(),
            final(self).ops() == old(self).ops().push(
                SpecOp::CloseElement { handle: h as nat },
            ),
    ;

    fn parse_error(&mut self, desc: Vec<char>)
        requires
            old(self).wf(),
        ensures
            final(self).wf(),
            final(self).ops() == old(self).ops().push(SpecOp::ReportError { desc: desc@ }),
    ;

    fn doc_metadata(&mut self, data: Vec<char>)
        requires
            old(self).wf(),
        ensures
            final(self).wf(),
            final(self).ops() == old(self).ops().push(SpecOp::DocMeta { data: data@ }),
    ;

    fn end(&mut self)
        requires
            old(self).wf(),
        ensures
            final(self).wf(),
            final(self).ops() == old(self).ops().push(SpecOp::EndDoc),
    ;
}

pub open spec fn opt_nat(p: Option<usize>) -> Option<nat> {
    match p {
        Some(v) => Some(v as nat),
        None => None,
    }
}

/// One namespace binding declared by a tag.
pub struct NsBinding {
    pub prefix: Vec<char>,
    pub uri: Vec<char>,
}

impl DeepView for NsBinding {
    type V = (Seq<char>, Seq<char>);

    open spec fn deep_view(&self) -> (Seq<char>, Seq<char>) {
        (self.prefix@, self.uri@)
    }
}

/// One open element on the stack, with its namespace scope.
pub struct StackEntry {
    pub handle: usize,
    pub qname: Vec<char>,
    pub ns: Vec<char>,
    pub bindings: Vec<NsBinding>,
}

impl DeepView for StackEntry {
    type V = SpecEntry;

    open spec fn deep_view(&self) -> SpecEntry {
        SpecEntry {
            handle: self.handle as nat,
            qname: self.qname@,
            ns: self.ns@,
            bindings: self.bindings.deep_view(),
        }
    }
}

/// The tree builder: document phase, open-element stack and output sink.
pub struct XmlTreeBuilder<S: TreeSink> {
    sink: S,
    stack: Vec<StackEntry>,
    phase: Phase,
    toks_got: Ghost<Seq<SpecToken>>,
}

impl<S: TreeSink> XmlTreeBuilder<S> {
    /// Starts a builder over a fresh sink (one that has received no
    /// operations yet).
    pub fn new(sink: S) -> (r: Self)
        requires
            sink.wf(),
            sink.ops() == Seq::<SpecOp>::empty(),
        ensures
            r.wf(),
            r.toks() == Seq::<SpecToken>::empty(),
    {
        let r = XmlTreeBuilder {
            sink,
            stack: Vec::new(),
            phase: Phase::BeforeRoot,
            toks_got: Ghost(Seq::empty()),
        };
        proof {
            assert(r.stack.deep_view() =~= Seq::<SpecEntry>::empty());
        }
        r
    }

    /// Hands the sink back; everything it received is what the model
    /// prescribes for the tokens this builder was given.
    pub fn unwrap(self) -> (r: S)
        requires
            self.wf(),
        ensures
            r.wf(),
            r.ops() == tb_run(tb_init(0), self.toks()).out,
    {
        self.sink
    }

    /// The abstract state replayed from the tokens received so far.
    pub closed spec fn model(&self) -> TbModel {
        tb_run(tb_init(0), self.toks_got@).st
    }
}

impl<S: TreeSink> TokenSink for XmlTreeBuilder<S> {
    closed spec fn toks(&self) -> Seq<SpecToken> {
        self.toks_got@
    }

    closed spec fn wf(&self) -> bool {
        &&& self.sink.wf()
        &&& self.sink.ops() == tb_run(tb_init(0), self.toks_got@).out
        &&& self.stack.deep_view() == self.model().stack
        &&& self.phase == self.model().phase
        &&& num_creates(self.sink.ops()) == self.model().created
    }

    fn process_token(&mut self, t: Token) {
        let ghost m = self.model();
        let ghost ops0 = self.sink.ops();
        let ghost tv = t@;
        proof {
            lemma_tb_run_snoc(tb_init(0), old(self).toks_got@, tv);
            lemma_tb_step_balance(m, tv);
            lemma_creates_concat(ops0, tb_step(m, tv).out);
        }
        match t {
            Token::StartTag { prefix, local, attrs, self_closing } => {
                self.do_start_tag(prefix, local, attrs, self_closing, Ghost(m));
            },
            Token::EndTag { name } => {
                self.do_end_tag(name, Ghost(m));
            },
            Token::Characters { text } => {
                let parent = self.parent_handle();
                match self.phase {
                    Phase::InContent => self.sink.append_text(parent, text),
                    _ => {
                        if ws_only(&text) {
                            self.sink.append_text(None, text);
                        } else {
                            self.sink.parse_error(chars_of("text outside the root element"));
                        }
                    },
                }
                proof {
                    assert(self.sink.ops() =~= ops0 + tb_step(m, tv).out);
                }
            },
            Token::Comment { text } => {
                let parent = self.parent_handle();
                self.sink.append_comment(parent, text);
                proof {
                    assert(self.sink.ops() =~= ops0 + tb_step(m, tv).out);
                }
            },
            Token::ProcessingInstruction { target, data } => {
                let before_root = match self.phase {
                    Phase::BeforeRoot => true,
                    _ => false,
                };
                if before_root && eq_str(&target, "xml") {
                    self.sink.doc_metadata(data);
                } else {
                    let parent = self.parent_handle();
                    self.sink.append_pi(parent, target, data);
                }
                proof {
                    assert(self.sink.ops() =~= ops0 + tb_step(m, tv).out);
                }
            },
            Token::Doctype { name, data } => {
                match self.phase {
                    Phase::BeforeRoot => self.sink.append_doctype(name, data),
                    _ => self.sink.parse_error(chars_of("misplaced DOCTYPE")),
                }
                proof {
                    assert(self.sink.ops() =~= ops0 + tb_step(m, tv).out);
                }
            },
            Token::ParseError { desc } => {
                self.sink.parse_error(desc);
                proof {
                    assert(self.sink.ops() =~= ops0 + tb_step(m, tv).out);
                }
            },
            Token::Eof => {
                self.do_eof(Ghost(m));
            },
        }
        proof {
            self.toks_got@ = old(self).toks_got@.push(tv);
        }
    }
}

impl<S: TreeSink> XmlTreeBuilder<S> {
    /// The current insertion point.
    fn parent_handle(&self) -> (r: Option<usize>)
        ensures
            ({
                let s = self.stack.deep_view();
                opt_nat(r) == if s.len() == 0 {
                    None::<nat>
                } else {
                    Some(s.last().handle)
                }
            }),
    {
        if self.stack.len() == 0 {
            None
        } else {
            Some(self.stack[self.stack.len() - 1].handle)
        }
    }

    /// A start tag: resolve the namespace, create and append, then push
    /// (or close at once when self-closing).
    fn do_start_tag(
        &mut self,
        prefix: Option<Vec<char>>,
        local: Vec<char>,
        attrs: Vec<Attribute>,
        self_closing: bool,
        Ghost(m): Ghost<TbModel>,
    )
        requires
            old(self).sink.wf(),
            m.phase == old(self).phase,
            m.stack == old(self).stack.deep_view(),
            m.created == num_creates(old(self).sink.ops()),
        ensures
            final(self).sink.wf(),
            final(self).sink.ops() == old(self).sink.ops() + tb_start_tag(
                m,
                match prefix {
                    Some(p) => Some(p@),
                    None => None,
                },
                local@,
                attrs.deep_view(),
                self_closing,
            ).out,
            final(self).stack.deep_view() == tb_start_tag(
                m,
                match prefix {
                    Some(p) => Some(p@),
                    None => None,
                },
                local@,
                attrs.deep_view(),
                self_closing,
            ).st.stack,
            final(self).phase == tb_start_tag(
                m,
                match prefix {
                    Some(p) => Some(p@),
                    None => None,
                },
                local@,
                attrs.deep_view(),
                self_closing,
            ).st.phase,
            final(self).toks_got == old(self).toks_got,
    {
        let ghost ops0 = self.sink.ops();
        let after_root = match self.phase {
            Phase::AfterRoot => true,
            _ => false,
        };
        if after_root {
            self.sink.parse_error(chars_of("element after document end"));
            proof {
                assert(self.sink.ops() =~= ops0 + tb_start_tag(
                    m,
                    match prefix {
                        Some(p) => Some(p@),
                        None => None,
                    },
                    local@,
                    attrs.deep_view(),
                    self_closing,
                ).out);
            }
            return;
        }
        let bindings = collect_bindings(&attrs);
        let rs = resolve_prefix(&self.stack, &bindings, &prefix);
        let ns = rs.0;
        if rs.1 {
            self.sink.parse_error(chars_of("unbound namespace prefix"));
            proof {
                let e = err_op("unbound namespace prefix"@);
                assert(self.sink.ops() =~= ops0 + seq![e]);
                lemma_creates_concat(ops0, seq![e]);
                lemma_count_single(seq![e]);
                assert(num_creates(self.sink.ops()) == m.created);
            }
        }
        let qname = make_qname(&prefix, &local);
        let qname2 = clone_vec(&qname);
        let ns2 = clone_vec(&ns);
        let parent = self.parent_handle();
        proof {
            assert(opt_nat(parent) == parent_of(m));
        }
        let h = self.sink.create_element(qname2, ns2, attrs);
        proof {
            assert(h as nat == m.created);
        }
        self.sink.append_element(parent, h);
        if self_closing {
            self.sink.close_element(h);
            if self.stack.len() == 0 {
                self.phase = Phase::AfterRoot;
            } else {
                self.phase = Phase::InContent;
            }
        } else {
            self.stack.push(StackEntry { handle: h, qname, ns, bindings });
            self.phase = Phase::InContent;
            proof {
                assert(self.stack.deep_view() =~= m.stack.push(
                    SpecEntry {
                        handle: h as nat,
                        qname: qname@,
                        ns: ns@,
                        bindings: bindings_of(attrs.deep_view()),
                    },
                ));
            }
        }
        proof {
            let pv = match prefix {
                Some(p) => Some(p@),
                None => None,
            };
            let r = tb_start_tag(m, pv, local@, attrs.deep_view(), self_closing);
            assert(self.sink.ops() =~= ops0 + r.out);
            assert(self.stack.deep_view() =~= r.st.stack);
        }
    }

    /// An end tag: pop to the nearest match with implicit-closure errors,
    /// or report and ignore.
    fn do_end_tag(&mut self, name: Vec<char>, Ghost(m): Ghost<TbModel>)
        requires
            old(self).sink.wf(),
            m.phase == old(self).phase,
            m.stack == old(self).stack.deep_view(),
            m.created == num_creates(old(self).sink.ops()),
        ensures
            final(self).sink.wf(),
            final(self).sink.ops() == old(self).sink.ops() + tb_end_tag(m, name@).out,
            final(self).stack.deep_view() == tb_end_tag(m, name@).st.stack,
            final(self).phase == tb_end_tag(m, name@).st.phase,
            final(self).toks_got == old(self).toks_got,
    {
        let ghost ops0 = self.sink.ops();
        let found = self.find_matching(&name);
        match found {
            None => {
                self.sink.parse_error(chars_of("unmatched end tag"));
                proof {
                    assert(self.sink.ops() =~= ops0 + tb_end_tag(m, name@).out);
                }
            },
            Some(i) => {
                let ghost orig = m.stack;
                let ghost mut added: Seq<SpecOp> = Seq::empty();
                proof {
                    assert(self.stack.deep_view() =~= orig.take(self.stack@.len() as int));
                    assert(self.sink.ops() =~= ops0 + added);
                    assert(pop_above(orig, i as int) =~= added + pop_above(
                        self.stack.deep_view(),
                        i as int,
                    ));
                }
                while self.stack.len() > i + 1
                    invariant
                        i < self.stack.len(),
                        self.sink.wf(),
                        self.phase == old(self).phase,
                        self.toks_got == old(self).toks_got,
                        self.stack.deep_view() == orig.take(self.stack@.len() as int),
                        orig.len() >= self.stack@.len(),
                        self.sink.ops() == ops0 + added,
                        pop_above(orig, i as int) == added + pop_above(
                            self.stack.deep_view(),
                            i as int,
                        ),
                    decreases self.stack@.len(),
                {
                    let ghost cur = self.stack.deep_view();
                    let e = self.stack.pop().unwrap();
                    self.sink.parse_error(chars_of("unclosed element"));
                    self.sink.close_element(e.handle);
                    proof {
                        let hd = seq![
                            err_op("unclosed element"@),
                            SpecOp::CloseElement { handle: cur.last().handle },
                        ];
                        assert(self.stack.deep_view() =~= cur.drop_last());
                        assert(self.stack.deep_view() =~= orig.take(self.stack@.len() as int));
                        assert(pop_above(cur, i as int) == hd + pop_above(cur.drop_last(), i as int));
                        added = added + hd;
                        assert(self.sink.ops() =~= ops0 + added);
                        assert(pop_above(orig, i as int) =~= added + pop_above(
                            self.stack.deep_view(),
                            i as int,
                        ));
                    }
                }
                let e = self.stack.pop().unwrap();
                self.sink.close_element(e.handle);
                if i == 0 {
                    self.phase = Phase::AfterRoot;
                }
                proof {
                    assert(self.sink.ops() =~= ops0 + tb_end_tag(m, name@).out);
                    assert(self.stack.deep_view() =~= tb_end_tag(m, name@).st.stack);
                }
            },
        }
    }

    /// Index of the innermost open element with this qualified name.
    fn find_matching(&self, name: &Vec<char>) -> (r: Option<usize>)
        ensures
            match r {
                Some(i) => find_match(self.stack.deep_view(), name@) == i && i
                    < self.stack.deep_view().len(),
                None => find_match(self.stack.deep_view(), name@) == -1,
            },
    {
        let ghost full = self.stack.deep_view();
        let mut j: usize = self.stack.len();
        proof {
            assert(full.take(j as int) =~= full);
        }
        while j > 0
            invariant
                j <= self.stack.len(),
                full == self.stack.deep_view(),
                find_match(full, name@) == find_match(full.take(j as int), name@),
            decreases j,
        {
            j = j - 1;
            if eq_vec(&self.stack[j].qname, name) {
                proof {
                    assert(full.take(j as int + 1).last() == full[j as int]);
                    assert(find_match(full.take(j as int + 1), name@) == j);
                }
                return Some(j);
            }
            proof {
                assert(full.take(j as int + 1).drop_last() =~= full.take(j as int));
                assert(full.take(j as int + 1).last() == full[j as int]);
            }
        }
        proof {
            assert(full.take(0) =~= Seq::<SpecEntry>::empty());
        }
        None
    }

    /// End of input: implicitly close everything, then end the document.
    fn do_eof(&mut self, Ghost(m): Ghost<TbModel>)
        requires
            old(self).sink.wf(),
            m.phase == old(self).phase,
            m.stack == old(self).stack.deep_view(),
            m.created == num_creates(old(self).sink.ops()),
        ensures
            final(self).sink.wf(),
            final(self).sink.ops() == old(self).sink.ops() + tb_eof(m).out,
            final(self).stack.deep_view() == tb_eof(m).st.stack,
            final(self).phase == tb_eof(m).st.phase,
            final(self).toks_got == old(self).toks_got,
    {
        let ghost ops0 = self.sink.ops();
        let ghost orig = m.stack;
        let ghost mut added: Seq<SpecOp> = Seq::empty();
        proof {
            assert(self.stack.deep_view() =~= orig.take(self.stack@.len() as int));
            assert(self.sink.ops() =~= ops0 + added);
            assert(pop_above(orig, -1) =~= added + pop_above(self.stack.deep_view(), -1));
        }
        while self.stack.len() > 0
            invariant
                self.sink.wf(),
                self.phase == old(self).phase,
                self.toks_got == old(self).toks_got,
                self.stack.deep_view() == orig.take(self.stack@.len() as int),
                orig.len() >= self.stack@.len(),
                self.sink.ops() == ops0 + added,
                pop_above(orig, -1) == added + pop_above(self.stack.deep_view(), -1),
            decreases self.stack@.len(),
        {
            let ghost cur = self.stack.deep_view();
            let e = self.stack.pop().unwrap();
            self.sink.parse_error(chars_of("unclosed element"));
            self.sink.close_element(e.handle);
            proof {
                let hd = seq![
                    err_op("unclosed element"@),
                    SpecOp::CloseElement { handle: cur.last().handle },
                ];
                assert(self.stack.deep_view() =~= cur.drop_last());
                assert(self.stack.deep_view() =~= orig.take(self.stack@.len() as int));
                assert(pop_above(cur, -1) == hd + pop_above(cur.drop_last(), -1));
                added = added + hd;
                assert(self.sink.ops() =~= ops0 + added);
                assert(pop_above(orig, -1) =~= added + pop_above(self.stack.deep_view(), -1));
            }
        }
        self.sink.end();
        self.phase = Phase::AfterRoot;
        proof {
            assert(self.sink.ops() =~= ops0 + tb_eof(m).out);
            assert(self.stack.deep_view() =~= tb_eof(m).st.stack);
        }
    }
}

/// Collects the xmlns bindings a tag's attributes declare.
fn collect_bindings(attrs: &Vec<Attribute>) -> (r: Vec<NsBinding>)
    ensures
        r.deep_view() == bindings_of(attrs.deep_view()),
    decreases attrs@.len(),
{
    let mut r: Vec<NsBinding> = Vec::new();
    let mut i: usize = 0;
    while i < attrs.len()
        invariant
            i <= attrs@.len(),
            r.deep_view() =~= bindings_of(attrs.deep_view().take(i as int)),
        decreases attrs@.len() - i,
    {
        let a = &attrs[i];
        proof {
            assert(attrs.deep_view().take(i as int + 1).drop_last() =~= attrs.deep_view().take(
                i as int,
            ));
            assert(attrs.deep_view().take(i as int + 1).last() == attrs.deep_view()[i as int]);
        }
        if eq_str(&a.name, "xmlns") {
            let uri = clone_vec(&a.value);
            r.push(NsBinding { prefix: Vec::new(), uri });
        } else if a.name.len() > 6 && starts_with_xmlns(&a.name) {
            let prefix = sub_vec(&a.name, 6, a.name.len());
            let uri = clone_vec(&a.value);
            proof {
                assert(prefix@ =~= a.name@.skip(6));
            }
            r.push(NsBinding { prefix, uri });
        }
        i = i + 1;
        proof {
            assert(r.deep_view() =~= bindings_of(attrs.deep_view().take(i as int)));
        }
    }
    proof {
        assert(attrs.deep_view().take(attrs@.len() as int) =~= attrs.deep_view());
    }
    r
}

/// True when the name starts with `xmlns:`.
fn starts_with_xmlns(name: &Vec<char>) -> (r: bool)
    requires
        name@.len() > 6,
    ensures
        r == (name@.take(6) == "xmlns:"@),
{
    let head = sub_vec(name, 0, 6);
    eq_str(&head, "xmlns:")
}

/// Resolves a tag's prefix: its own bindings first, then the stack from
/// innermost to outermost, with `xml` built in.
fn resolve_prefix(
    stack: &Vec<StackEntry>,
    bs: &Vec<NsBinding>,
    prefix: &Option<Vec<char>>,
) -> (r: (Vec<char>, bool))
    ensures
        (r.0@, r.1) == resolve_ns(
            stack.deep_view(),
            bs.deep_view(),
            match prefix {
                Some(p) => Some(p@),
                None => None,
            },
        ),
{
    let p: Vec<char> = match prefix {
        Some(p) => clone_vec(p),
        None => Vec::new(),
    };
    let is_some = match prefix {
        Some(_) => true,
        None => false,
    };
    if is_some && eq_str(&p, "xml") {
        return (chars_of("http://www.w3.org/XML/1998/namespace"), false);
    }
    match scope_lookup(bs, &p) {
        Some(uri) => (uri, false),
        None => {
            match stack_lookup(stack, &p) {
                Some(uri) => (uri, false),
                None => (Vec::new(), is_some),
            }
        },
    }
}

/// Looks a prefix up in one scope, innermost declaration winning.
fn scope_lookup(bs: &Vec<NsBinding>, p: &Vec<char>) -> (r: Option<Vec<char>>)
    ensures
        match r {
            Some(uri) => lookup_scope(bs.deep_view(), p@) == Some(uri@),
            None => lookup_scope(bs.deep_view(), p@) is None,
        },
{
    let ghost full = bs.deep_view();
    let mut j: usize = bs.len();
    proof {
        assert(full.take(j as int) =~= full);
    }
    while j > 0
        invariant
            j <= bs@.len(),
            full == bs.deep_view(),
            lookup_scope(full, p@) == lookup_scope(full.take(j as int), p@),
        decreases j,
    {
        j = j - 1;
        proof {
            assert(full.take(j as int + 1).drop_last() =~= full.take(j as int));
            assert(full.take(j as int + 1).last() == full[j as int]);
        }
        if eq_vec(&bs[j].prefix, p) {
            let uri = clone_vec(&bs[j].uri);
            return Some(uri);
        }
    }
    proof {
        assert(full.take(0) =~= Seq::<(Seq<char>, Seq<char>)>::empty());
    }
    None
}

/// Walks the stack from innermost to outermost scope.
fn stack_lookup(stack: &Vec<StackEntry>, p: &Vec<char>) -> (r: Option<Vec<char>>)
    ensures
        match r {
            Some(uri) => lookup_stack(stack.deep_view(), p@) == Some(uri@),
            None => lookup_stack(stack.deep_view(), p@) is None,
        },
{
    let ghost full = stack.deep_view();
    let mut j: usize = stack.len();
    proof {
        assert(full.take(j as int) =~= full);
    }
    while j > 0
        invariant
            j <= stack@.len(),
            full == stack.deep_view(),
            lookup_stack(full, p@) == lookup_stack(full.take(j as int), p@),
        decreases j,
    {
        j = j - 1;
        proof {
            assert(full.take(j as int + 1).drop_last() =~= full.take(j as int));
            assert(full.take(j as int + 1).last() == full[j as int]);
        }
        match scope_lookup(&stack[j].bindings, p) {
            Some(uri) => {
                return Some(uri);
            },
            None => {
            },
        }
    }
    proof {
        assert(full.take(0) =~= Seq::<SpecEntry>::empty());
    }
    None
}

/// The qualified name a tag was written with.
fn make_qname(prefix: &Option<Vec<char>>, local: &Vec<char>) -> (r: Vec<char>)
    ensures
        r@ == qname_of(
            match prefix {
                Some(p) => Some(p@),
                None => None,
            },
            local@,
        ),
{
    match prefix {
        Some(p) => {
            let mut r = clone_vec(p);
            r.push(':');
            push_all(&mut r, local);
            proof {
                assert(r@ =~= p@ + seq![':'] + local@);
            }
            r
        },
        None => clone_vec(local),
    }
}

} // verus!
