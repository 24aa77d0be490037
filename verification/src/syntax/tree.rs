//! The concrete syntax tree: nodes with a kind and ordered children, tokens
//! with a kind and their text. Nothing of the source is dropped from it.

use vstd::prelude::*;

use crate::syntax::SyntaxKind;

verus! {

/// The mathematical value of a tree element.
pub enum Green {
    Node(SyntaxKind, Seq<Green>),
    Token(SyntaxKind, Seq<char>),
}

/// A token of the tree.
pub struct SyntaxToken {
    pub kind: SyntaxKind,
    pub text: String,
}

/// A node of the tree.
pub struct SyntaxNode {
    pub kind: SyntaxKind,
    pub children: Vec<SyntaxElement>,
}

/// A child of a node.
pub enum SyntaxElement {
    Node(SyntaxNode),
    Token(SyntaxToken),
}

/// The value of an element.
pub open spec fn green_of(e: SyntaxElement) -> Green
    decreases e,
{
    match e {
        SyntaxElement::Node(n) => Green::Node(n.kind, greens_of(n.children@)),
        SyntaxElement::Token(t) => Green::Token(t.kind, t.text@),
    }
}

/// The values of a sequence of elements.
pub open spec fn greens_of(es: Seq<SyntaxElement>) -> Seq<Green>
    decreases es,
{
    if es.len() == 0 {
        Seq::empty()
    } else {
        greens_of(es.subrange(0, es.len() - 1)).push(green_of(es[es.len() - 1]))
    }
}

impl View for SyntaxNode {
    type V = Green;

    open spec fn view(&self) -> Green {
        Green::Node(self.kind, greens_of(self.children@))
    }
}

/// The kind of an element.
pub open spec fn green_kind(g: Green) -> SyntaxKind {
    match g {
        Green::Node(k, _) => k,
        Green::Token(k, _) => k,
    }
}

/// The children of an element (none for a token).
pub open spec fn green_children(g: Green) -> Seq<Green> {
    match g {
        Green::Node(_, cs) => cs,
        Green::Token(_, _) => Seq::empty(),
    }
}

/// The text of an element: its tokens' texts in order.
pub open spec fn green_text(g: Green) -> Seq<char>
    decreases g, 1int,
{
    match g {
        Green::Node(_, cs) => greens_text(cs),
        Green::Token(_, t) => t,
    }
}

/// The text of a sequence of elements.
pub open spec fn greens_text(gs: Seq<Green>) -> Seq<char>
    decreases gs, 0int,
{
    if gs.len() == 0 {
        Seq::empty()
    } else {
        greens_text(gs.subrange(0, gs.len() - 1)) + green_text(gs[gs.len() - 1])
    }
}

/// The first child node of kind `k`.
pub open spec fn find_node(cs: Seq<Green>, k: SyntaxKind) -> Option<Green>
    decreases cs.len(),
{
    if cs.len() == 0 {
        None
    } else if cs[0] is Node && green_kind(cs[0]) == k {
        Some(cs[0])
    } else {
        find_node(cs.drop_first(), k)
    }
}

/// The first child node whose kind is `a` or `b`.
pub open spec fn find_node_of(cs: Seq<Green>, a: SyntaxKind, b: SyntaxKind) -> Option<Green>
    decreases cs.len(),
{
    if cs.len() == 0 {
        None
    } else if cs[0] is Node && (green_kind(cs[0]) == a || green_kind(cs[0]) == b) {
        Some(cs[0])
    } else {
        find_node_of(cs.drop_first(), a, b)
    }
}

/// The first child token of kind `k`.
pub open spec fn find_token(cs: Seq<Green>, k: SyntaxKind) -> Option<Green>
    decreases cs.len(),
{
    if cs.len() == 0 {
        None
    } else if cs[0] is Token && green_kind(cs[0]) == k {
        Some(cs[0])
    } else {
        find_token(cs.drop_first(), k)
    }
}

pub proof fn lemma_greens_push(es: Seq<SyntaxElement>, e: SyntaxElement)
    ensures
        greens_of(es.push(e)) == greens_of(es).push(green_of(e)),
{
    assert(es.push(e).subrange(0, es.len() as int) =~= es);
}

pub proof fn lemma_greens_len(es: Seq<SyntaxElement>)
    ensures
        greens_of(es).len() == es.len(),
        forall|i: int| 0 <= i < es.len() ==> #[trigger] greens_of(es)[i] == green_of(es[i]),
    decreases es.len(),
{
    if es.len() > 0 {
        let init = es.subrange(0, es.len() - 1);
        lemma_greens_len(init);
        assert forall|i: int| 0 <= i < es.len() implies #[trigger] greens_of(es)[i] == green_of(
            es[i],
        ) by {
            if i < es.len() - 1 {
                assert(init[i] == es[i]);
            }
        }
    }
}

pub proof fn lemma_greens_text_push(gs: Seq<Green>, g: Green)
    ensures
        greens_text(gs.push(g)) == greens_text(gs) + green_text(g),
{
    assert(gs.push(g).subrange(0, gs.len() as int) =~= gs);
}

pub proof fn lemma_greens_text_concat(a: Seq<Green>, b: Seq<Green>)
    ensures
        greens_text(a + b) == greens_text(a) + greens_text(b),
    decreases b.len(),
{
    if b.len() == 0 {
        assert(a + b =~= a);
        assert(greens_text(b) =~= Seq::<char>::empty());
        assert(greens_text(a) + greens_text(b) =~= greens_text(a));
    } else {
        let b0 = b.subrange(0, b.len() - 1);
        lemma_greens_text_concat(a, b0);
        assert((a + b).subrange(0, (a + b).len() - 1) =~= a + b0);
        assert((a + b)[(a + b).len() - 1] == b[b.len() - 1]);
        assert(greens_text(a) + greens_text(b0) + green_text(b[b.len() - 1]) =~= greens_text(a)
            + (greens_text(b0) + green_text(b[b.len() - 1])));
    }
}

/// The text of one element as a sequence.
pub proof fn lemma_greens_text_single(g: Green)
    ensures
        greens_text(seq![g]) == green_text(g),
{
    assert(seq![g].subrange(0, 0) =~= Seq::<Green>::empty());
    assert(greens_text(Seq::<Green>::empty()) + green_text(g) =~= green_text(g));
}

impl SyntaxNode {
    /// The first child node of kind `kind`.
    pub fn child_node(&self, kind: SyntaxKind) -> (r: Option<&SyntaxNode>)
        ensures
            match r {
                Some(n) => find_node(greens_of(self.children@), kind) == Some(n@),
                None => find_node(greens_of(self.children@), kind) is None,
            },
    {
        let ghost gs = greens_of(self.children@);
        proof {
            lemma_greens_len(self.children@);
            assert(gs.skip(0) =~= gs);
        }
        let mut i: usize = 0;
        while i < self.children.len()
            invariant
                i <= self.children@.len(),
                gs == greens_of(self.children@),
                gs.len() == self.children@.len(),
                forall|j: int|
                    0 <= j < self.children@.len() ==> #[trigger] gs[j] == green_of(
                        self.children@[j],
                    ),
                find_node(gs, kind) == find_node(gs.skip(i as int), kind),
            decreases self.children@.len() - i,
        {
            assert(gs.skip(i as int).drop_first() =~= gs.skip(i + 1));
            match &self.children[i] {
                SyntaxElement::Node(n) => {
                    if n.kind == kind {
                        return Some(n);
                    }
                },
                SyntaxElement::Token(_) => {},
            }
            i = i + 1;
        }
        None
    }

    /// The first child node whose kind is `a` or `b`.
    pub fn child_node_of(&self, a: SyntaxKind, b: SyntaxKind) -> (r: Option<&SyntaxNode>)
        ensures
            match r {
                Some(n) => find_node_of(greens_of(self.children@), a, b) == Some(n@),
                None => find_node_of(greens_of(self.children@), a, b) is None,
            },
    {
        let ghost gs = greens_of(self.children@);
        proof {
            lemma_greens_len(self.children@);
            assert(gs.skip(0) =~= gs);
        }
        let mut i: usize = 0;
        while i < self.children.len()
            invariant
                i <= self.children@.len(),
                gs == greens_of(self.children@),
                gs.len() == self.children@.len(),
                forall|j: int|
                    0 <= j < self.children@.len() ==> #[trigger] gs[j] == green_of(
                        self.children@[j],
                    ),
                find_node_of(gs, a, b) == find_node_of(gs.skip(i as int), a, b),
            decreases self.children@.len() - i,
        {
            assert(gs.skip(i as int).drop_first() =~= gs.skip(i + 1));
            match &self.children[i] {
                SyntaxElement::Node(n) => {
                    if n.kind == a || n.kind == b {
                        return Some(n);
                    }
                },
                SyntaxElement::Token(_) => {},
            }
            i = i + 1;
        }
        None
    }

    /// The first child token of kind `kind`.
    pub fn child_token(&self, kind: SyntaxKind) -> (r: Option<&SyntaxToken>)
        ensures
            match r {
                Some(t) => find_token(greens_of(self.children@), kind) == Some(
                    Green::Token(t.kind, t.text@),
                ),
                None => find_token(greens_of(self.children@), kind) is None,
            },
    {
        let ghost gs = greens_of(self.children@);
        proof {
            lemma_greens_len(self.children@);
            assert(gs.skip(0) =~= gs);
        }
        let mut i: usize = 0;
        while i < self.children.len()
            invariant
                i <= self.children@.len(),
                gs == greens_of(self.children@),
                gs.len() == self.children@.len(),
                forall|j: int|
                    0 <= j < self.children@.len() ==> #[trigger] gs[j] == green_of(
                        self.children@[j],
                    ),
                find_token(gs, kind) == find_token(gs.skip(i as int), kind),
            decreases self.children@.len() - i,
        {
            assert(gs.skip(i as int).drop_first() =~= gs.skip(i + 1));
            match &self.children[i] {
                SyntaxElement::Token(t) => {
                    if t.kind == kind {
                        return Some(t);
                    }
                },
                SyntaxElement::Node(_) => {},
            }
            i = i + 1;
        }
        None
    }
}

} // verus!
