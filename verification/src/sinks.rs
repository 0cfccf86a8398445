//! Recording sinks: concrete implementations of the two capabilities
//! that simply log what they receive, for tests and as the default
//! in-memory document representation.

use vstd::prelude::*;
use crate::tokens::Attribute;
use crate::tokens::SpecToken;
use crate::tokens::Token;
use crate::tokenizer::TokenSink;
use crate::tree_builder::TreeSink;
use crate::tree_builder::opt_nat;
use crate::tb_model::SpecOp;
use crate::tb_model::num_creates;

verus! {

/// A token sink that keeps every token it receives, in order.
pub struct TokenLog {
    log: Vec<Token>,
}

impl TokenLog {
    pub fn new() -> (r: Self)
        ensures
            r.toks() == Seq::<SpecToken>::empty(),
    {
        let r = TokenLog { log: Vec::new() };
        proof {
            assert(r.log.deep_view() =~= Seq::<SpecToken>::empty());
        }
        r
    }

    /// The tokens received so far.
    pub fn tokens(&self) -> (r: &Vec<Token>)
        ensures
            r.deep_view() == self.toks(),
    {
        &self.log
    }
}

impl TokenSink for TokenLog {
    closed spec fn toks(&self) -> Seq<SpecToken> {
        self.log.deep_view()
    }

    open spec fn wf(&self) -> bool {
        true
    }

    fn process_token(&mut self, t: Token) {
        let ghost tv = t@;
        self.log.push(t);
        proof {
            assert(self.log.deep_view() =~= old(self).log.deep_view().push(tv));
        }
    }
}

/// One tree-mutation request, as recorded.
#[derive(Clone, Debug, PartialEq, Eq)]
pub enum DomOp {
    Create { name: Vec<char>, ns: Vec<char>, attrs: Vec<Attribute> },
    AppendElement { parent: Option<usize>, child: usize },
    AppendText { parent: Option<usize>, text: Vec<char> },
    AppendComment { parent: Option<usize>, text: Vec<char> },
    AppendPi { parent: Option<usize>, target: Vec<char>, data: Vec<char> },
    AppendDoctype { name: Vec<char>, data: Vec<char> },
    CloseElement { handle: usize },
    ReportError { desc: Vec<char> },
    DocMeta { data: Vec<char> },
    EndDoc,
}

impl DeepView for DomOp {
    type V = SpecOp;

    open spec fn deep_view(&self) -> SpecOp {
        match self {
            DomOp::Create { name, ns, attrs } => SpecOp::Create {
                name: name@,
                ns: ns@,
                attrs: attrs.deep_view(),
            },
            DomOp::AppendElement { parent, child } => SpecOp::AppendElement {
                parent: opt_nat(*parent),
                child: *child as nat,
            },
            DomOp::AppendText { parent, text } => SpecOp::AppendText {
                parent: opt_nat(*parent),
                text: text@,
            },
            DomOp::AppendComment { parent, text } => SpecOp::AppendComment {
                parent: opt_nat(*parent),
                text: text@,
            },
            DomOp::AppendPi { parent, target, data } => SpecOp::AppendPi {
                parent: opt_nat(*parent),
                target: target@,
                data: data@,
            },
            DomOp::AppendDoctype { name, data } => SpecOp::AppendDoctype {
                name: name@,
                data: data@,
            },
            DomOp::CloseElement { handle } => SpecOp::CloseElement { handle: *handle as nat },
            DomOp::ReportError { desc } => SpecOp::ReportError { desc: desc@ },
            DomOp::DocMeta { data } => SpecOp::DocMeta { data: data@ },
            DomOp::EndDoc => SpecOp::EndDoc,
        }
    }
}

/// A tree sink that records every mutation request, in order: the
/// default document representation.  Handles are issued in creation
/// order, by counting the `Create` entries already in the log.
pub struct DomLog {
    log: Vec<DomOp>,
}

impl DomLog {
    pub fn new() -> (r: Self)
        ensures
            r.wf(),
            r.ops() == Seq::<SpecOp>::empty(),
    {
        let r = DomLog { log: Vec::new() };
        proof {
            assert(r.log.deep_view() =~= Seq::<SpecOp>::empty());
        }
        r
    }

    /// The mutation requests received so far.
    pub fn ops_log(&self) -> (r: &Vec<DomOp>)
        ensures
            r.deep_view() == self.ops(),
    {
        &self.log
    }
}

impl Default for DomLog {
    fn default() -> (r: Self)
        ensures
            r.wf(),
            r.ops() == Seq::<SpecOp>::empty(),
    {
        DomLog::new()
    }
}

/// Counts the elements created so far in the log.
fn count_creates(log: &Vec<DomOp>) -> (c: usize)
    ensures
        c as nat == num_creates(log.deep_view()),
{
    let mut c: usize = 0;
    let mut i: usize = 0;
    proof {
        assert(log.deep_view().take(0) =~= Seq::<SpecOp>::empty());
    }
    while i < log.len()
        invariant
            i <= log@.len(),
            c <= i,
            c as nat == num_creates(log.deep_view().take(i as int)),
        decreases log@.len() - i,
    {
        proof {
            assert(log.deep_view().take(i as int + 1).drop_last() =~= log.deep_view().take(
                i as int,
            ));
            assert(log.deep_view().take(i as int + 1).last() == log.deep_view()[i as int]);
        }
        match &log[i] {
            DomOp::Create { .. } => {
                c = c + 1;
            },
            _ => {
            },
        }
        i = i + 1;
    }
    proof {
        assert(log.deep_view().take(log@.len() as int) =~= log.deep_view());
    }
    c
}

impl TreeSink for DomLog {
    closed spec fn ops(&self) -> Seq<SpecOp> {
        self.log.deep_view()
    }

    open spec fn wf(&self) -> bool {
        true
    }

    fn create_element(&mut self, name: Vec<char>, ns: Vec<char>, attrs: Vec<Attribute>) -> (h:
        usize) {
        let ghost op = SpecOp::Create { name: name@, ns: ns@, attrs: attrs.deep_view() };
        let h = count_creates(&self.log);
        self.log.push(DomOp::Create { name, ns, attrs });
        proof {
            assert(self.log.deep_view() =~= old(self).log.deep_view().push(op));
        }
        h
    }

    fn append_element(&mut self, parent: Option<usize>, child: usize) {
        let ghost op = SpecOp::AppendElement { parent: opt_nat(parent), child: child as nat };
        self.log.push(DomOp::AppendElement { parent, child });
        proof {
            assert(self.log.deep_view() =~= old(self).log.deep_view().push(op));
        }
    }

    fn append_text(&mut self, parent: Option<usize>, text: Vec<char>) {
        let ghost op = SpecOp::AppendText { parent: opt_nat(parent), text: text@ };
        self.log.push(DomOp::AppendText { parent, text });
        proof {
            assert(self.log.deep_view() =~= old(self).log.deep_view().push(op));
        }
    }

    fn append_comment(&mut self, parent: Option<usize>, text: Vec<char>) {
        let ghost op = SpecOp::AppendComment { parent: opt_nat(parent), text: text@ };
        self.log.push(DomOp::AppendComment { parent, text });
        proof {
            assert(self.log.deep_view() =~= old(self).log.deep_view().push(op));
        }
    }

    fn append_pi(&mut self, parent: Option<usize>, target: Vec<char>, data: Vec<char>) {
        let ghost op = SpecOp::AppendPi { parent: opt_nat(parent), target: target@, data: data@ };
        self.log.push(DomOp::AppendPi { parent, target, data });
        proof {
            assert(self.log.deep_view() =~= old(self).log.deep_view().push(op));
        }
    }

    fn append_doctype(&mut self, name: Vec<char>, data: Vec<char>) {
        let ghost op = SpecOp::AppendDoctype { name: name@, data: data@ };
        self.log.push(DomOp::AppendDoctype { name, data });
        proof {
            assert(self.log.deep_view() =~= old(self).log.deep_view().push(op));
        }
    }

    fn close_element(&mut self, h: usize) {
        let ghost op = SpecOp::CloseElement { handle: h as nat };
        self.log.push(DomOp::CloseElement { handle: h });
        proof {
            assert(self.log.deep_view() =~= old(self).log.deep_view().push(op));
        }
    }

    fn parse_error(&mut self, desc: Vec<char>) {
        let ghost op = SpecOp::ReportError { desc: desc@ };
        self.log.push(DomOp::ReportError { desc });
        proof {
            assert(self.log.deep_view() =~= old(self).log.deep_view().push(op));
        }
    }

    fn doc_metadata(&mut self, data: Vec<char>) {
        let ghost op = SpecOp::DocMeta { data: data@ };
        self.log.push(DomOp::DocMeta { data });
        proof {
            assert(self.log.deep_view() =~= old(self).log.deep_view().push(op));
        }
    }

    fn end(&mut self) {
        self.log.push(DomOp::EndDoc);
        proof {
            assert(self.log.deep_view() =~= old(self).log.deep_view().push(SpecOp::EndDoc));
        }
    }
}

} // verus!
