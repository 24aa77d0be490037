//! The parser: recursive descent over the token stream, building the
//! concrete syntax tree. Every token it passes over goes into the tree;
//! a token that is not the one expected goes into an `Error` node.
//!
//! The stream that the parser reads is the lexer's tokens followed by an
//! endless supply of `Eof` tokens with empty text.

use vstd::prelude::*;
use vstd::string::*;

use crate::syntax::ast::BasFile;
use crate::syntax::lex::{lex_from, token_kind, texts, Lexer, Token};
use crate::syntax::tree::{green_children, green_text, greens_of, greens_text, lemma_greens_push, lemma_greens_text_concat, lemma_greens_text_push, lemma_greens_text_single, Green, SyntaxElement, SyntaxNode, SyntaxToken};
use crate::syntax::SyntaxKind;

verus! {

broadcast use vstd::string::group_string_axioms;

// ---------------------------------------------------------------------------
// The grammar, as functions of the token stream and a position in it. Each
// gives the position after the construct and the elements it adds to the
// node under construction; `None` where the parser would panic.

/// The syntax kind of the token at `p` (`Eof` past the end).
pub open spec fn kind_at(toks: Seq<(Token, Seq<char>)>, p: int) -> SyntaxKind {
    if 0 <= p < toks.len() {
        token_kind(toks[p].0)
    } else {
        SyntaxKind::Eof
    }
}

/// The text of the token at `p` (empty past the end).
pub open spec fn text_at(toks: Seq<(Token, Seq<char>)>, p: int) -> Seq<char> {
    if 0 <= p < toks.len() {
        toks[p].1
    } else {
        Seq::empty()
    }
}

/// The tree token for the token at `p`.
pub open spec fn tok_at(toks: Seq<(Token, Seq<char>)>, p: int) -> Green {
    Green::Token(kind_at(toks, p), text_at(toks, p))
}

/// The token at `p` wrapped in an `Error` node.
pub open spec fn error_at(toks: Seq<(Token, Seq<char>)>, p: int) -> Green {
    Green::Node(SyntaxKind::Error, seq![tok_at(toks, p)])
}

/// Eating a token of kind `k` at `p`: the token itself if it has that kind,
/// else the token in an `Error` node. Either way one token is consumed.
pub open spec fn eat_at(toks: Seq<(Token, Seq<char>)>, p: int, k: SyntaxKind) -> Green {
    if kind_at(toks, p) == k {
        tok_at(toks, p)
    } else {
        error_at(toks, p)
    }
}

/// `Sub Name()` and a line end: six tokens.
pub open spec fn spec_sub_stmt(toks: Seq<(Token, Seq<char>)>, p: int) -> Green {
    Green::Node(
        SyntaxKind::SubStmt,
        seq![
            eat_at(toks, p, SyntaxKind::SubKw),
            eat_at(toks, p + 1, SyntaxKind::Space),
            Green::Node(SyntaxKind::Name, seq![eat_at(toks, p + 2, SyntaxKind::Ident)]),
            Green::Node(
                SyntaxKind::ParamList,
                seq![eat_at(toks, p + 3, SyntaxKind::LParen), eat_at(toks, p + 4, SyntaxKind::RParen)],
            ),
            eat_at(toks, p + 5, SyntaxKind::Eol),
        ],
    )
}

/// An argument list of one argument, a string literal, at `p`; the parser
/// panics on anything else.
pub open spec fn spec_arg_list(toks: Seq<(Token, Seq<char>)>, p: int) -> Option<Green> {
    if kind_at(toks, p) == SyntaxKind::StringLit {
        Some(
            Green::Node(
                SyntaxKind::ArgList,
                seq![
                    Green::Node(
                        SyntaxKind::Arg,
                        seq![Green::Node(SyntaxKind::LiteralExpr, seq![tok_at(toks, p)])],
                    ),
                ],
            ),
        )
    } else {
        None
    }
}

/// `Name arg` and a line end: four tokens.
pub open spec fn spec_implicit_call(toks: Seq<(Token, Seq<char>)>, p: int) -> Option<
    (int, Green),
> {
    match spec_arg_list(toks, p + 2) {
        Some(args) => Some(
            (
                p + 4,
                Green::Node(
                    SyntaxKind::ImplicitCallStmt,
                    seq![
                        Green::Node(SyntaxKind::NameRef, seq![eat_at(toks, p, SyntaxKind::Ident)]),
                        eat_at(toks, p + 1, SyntaxKind::Space),
                        args,
                        eat_at(toks, p + 3, SyntaxKind::Eol),
                    ],
                ),
            ),
        ),
        None => None,
    }
}

/// `Call Name(arg)` and a line end: seven tokens.
pub open spec fn spec_explicit_call(toks: Seq<(Token, Seq<char>)>, p: int) -> Option<
    (int, Green),
> {
    match spec_arg_list(toks, p + 4) {
        Some(args) => Some(
            (
                p + 7,
                Green::Node(
                    SyntaxKind::ExplicitCallStmt,
                    seq![
                        eat_at(toks, p, SyntaxKind::CallKw),
                        eat_at(toks, p + 1, SyntaxKind::Space),
                        Green::Node(
                            SyntaxKind::NameRef,
                            seq![eat_at(toks, p + 2, SyntaxKind::Ident)],
                        ),
                        eat_at(toks, p + 3, SyntaxKind::LParen),
                        args,
                        eat_at(toks, p + 5, SyntaxKind::RParen),
                        eat_at(toks, p + 6, SyntaxKind::Eol),
                    ],
                ),
            ),
        ),
        None => None,
    }
}

/// One statement at `p`: at the end nothing, blanks are kept as they are, an
/// identifier starts an implicit call, `Call` an explicit one, and any other
/// token becomes an error.
pub open spec fn spec_stmt(toks: Seq<(Token, Seq<char>)>, p: int) -> Option<(int, Seq<Green>)> {
    let k = kind_at(toks, p);
    if k == SyntaxKind::Eof {
        Some((p, Seq::empty()))
    } else if k == SyntaxKind::Space || k == SyntaxKind::Eol {
        Some((p + 1, seq![tok_at(toks, p)]))
    } else if k == SyntaxKind::Ident {
        match spec_implicit_call(toks, p) {
            Some((q, g)) => Some((q, seq![g])),
            None => None,
        }
    } else if k == SyntaxKind::CallKw {
        match spec_explicit_call(toks, p) {
            Some((q, g)) => Some((q, seq![g])),
            None => None,
        }
    } else {
        Some((p + 1, seq![error_at(toks, p)]))
    }
}

/// The three tokens `End`, a space and `Sub` stand at `p`.
pub open spec fn at_end_sub(toks: Seq<(Token, Seq<char>)>, p: int) -> bool {
    &&& kind_at(toks, p) == SyntaxKind::EndKw
    &&& kind_at(toks, p + 1) == SyntaxKind::Space
    &&& kind_at(toks, p + 2) == SyntaxKind::SubKw
}

/// Statements from `p` up to `End Sub`, or up to the end of the input where
/// `End Sub` is missing.
pub open spec fn spec_stmts(toks: Seq<(Token, Seq<char>)>, p: int) -> Option<(int, Seq<Green>)>
    decreases toks.len() - p,
{
    if at_end_sub(toks, p) || kind_at(toks, p) == SyntaxKind::Eof {
        Some((p, Seq::empty()))
    } else {
        match spec_stmt(toks, p) {
            Some((q, gs)) => if p < q && q < toks.len() {
                match spec_stmts(toks, q) {
                    Some((r, rest)) => Some((r, gs + rest)),
                    None => None,
                }
            } else {
                // past the end of the tokens only `Eof` is left
                Some((q, gs))
            },
            None => None,
        }
    }
}

/// `End Sub` and a line end or the end of the input.
pub open spec fn spec_end_sub_stmt(toks: Seq<(Token, Seq<char>)>, p: int) -> (int, Green) {
    let head = seq![
        eat_at(toks, p, SyntaxKind::EndKw),
        eat_at(toks, p + 1, SyntaxKind::Space),
        eat_at(toks, p + 2, SyntaxKind::SubKw),
    ];
    let k = kind_at(toks, p + 3);
    if k == SyntaxKind::Eol || k == SyntaxKind::Eof {
        (p + 4, Green::Node(SyntaxKind::EndSubStmt, head.push(tok_at(toks, p + 3))))
    } else {
        (p + 3, Green::Node(SyntaxKind::EndSubStmt, head))
    }
}

/// A `Sub` block: its header, its statements and its `End Sub`.
pub open spec fn spec_sub_block(toks: Seq<(Token, Seq<char>)>, p: int) -> Option<(int, Green)> {
    match spec_stmts(toks, p + 6) {
        Some((q, stmts)) => {
            let (r, end) = spec_end_sub_stmt(toks, q);
            Some(
                (
                    r,
                    Green::Node(
                        SyntaxKind::SubBlock,
                        seq![
                            spec_sub_stmt(toks, p),
                            Green::Node(SyntaxKind::StmtList, stmts),
                            end,
                        ],
                    ),
                ),
            )
        },
        None => None,
    }
}

/// One step of the file's loop at `p` (a token that is not `Eof`).
pub open spec fn spec_file_item(toks: Seq<(Token, Seq<char>)>, p: int) -> Option<
    (int, Seq<Green>),
> {
    let k = kind_at(toks, p);
    if k == SyntaxKind::Space || k == SyntaxKind::Eol {
        Some((p + 1, seq![tok_at(toks, p)]))
    } else if k == SyntaxKind::SubKw {
        match spec_sub_block(toks, p) {
            Some((q, g)) => Some((q, seq![g])),
            None => None,
        }
    } else {
        Some((p + 1, seq![error_at(toks, p)]))
    }
}

/// The contents of the file from `p` up to the first `Eof`.
pub open spec fn spec_file_items(toks: Seq<(Token, Seq<char>)>, p: int) -> Option<
    (int, Seq<Green>),
>
    decreases toks.len() - p,
{
    if kind_at(toks, p) == SyntaxKind::Eof {
        Some((p, Seq::empty()))
    } else {
        match spec_file_item(toks, p) {
            Some((q, gs)) => if p < q && q < toks.len() {
                match spec_file_items(toks, q) {
                    Some((r, rest)) => Some((r, gs + rest)),
                    None => None,
                }
            } else {
                // past the end of the tokens the next token is `Eof`
                Some((q, gs))
            },
            None => None,
        }
    }
}

/// The tree that the parser builds from a token stream: a `BasFile` node
/// holding the file's contents; `None` where the parser would panic (an
/// argument that is not a string literal).
pub open spec fn spec_parse(toks: Seq<(Token, Seq<char>)>) -> Option<Green> {
    match spec_file_items(toks, 0) {
        Some((_, gs)) => Some(Green::Node(SyntaxKind::BasFile, gs)),
        None => None,
    }
}

/// The concatenated texts of the stream from `p` to `q`.
pub open spec fn stream_text(toks: Seq<(Token, Seq<char>)>, p: int, q: int) -> Seq<char>
    decreases q - p,
{
    if q <= p {
        Seq::empty()
    } else {
        stream_text(toks, p, q - 1) + text_at(toks, q - 1)
    }
}

/// The position after a construct that was parsed.
pub open spec fn after<T>(r: Option<(int, T)>) -> int {
    match r {
        Some((q, _)) => q,
        None => 0,
    }
}

/// What a construct that was parsed built.
pub open spec fn built<T>(r: Option<(int, T)>) -> T {
    match r {
        Some((_, t)) => t,
        None => arbitrary(),
    }
}

// ---------------------------------------------------------------------------
// The executable parser.

/// The parser's state: the tokens read from the lexer and the position of
/// the next one. Past the last token the stream goes on with `Eof` tokens,
/// so the position may grow past the number of tokens; `pos` is where it
/// reads, the position held at the number of tokens.
pub struct Parser<'a> {
    tokens: Vec<(Token, &'a str)>,
    pos: usize,
    at: Ghost<nat>,
}

impl<'a> Parser<'a> {
    /// The tokens as a stream of kinds and texts.
    pub closed spec fn stream(&self) -> Seq<(Token, Seq<char>)> {
        Seq::new(self.tokens@.len(), |i: int| (self.tokens@[i].0, self.tokens@[i].1@))
    }

    /// The position of the next token.
    pub closed spec fn position(&self) -> int {
        self.at@ as int
    }

    /// A position is never negative.
    pub proof fn lemma_position_natural(&self)
        ensures
            0 <= self.position(),
    {
    }

    /// The token count stays far from the limit of `usize`, and the reading
    /// index is the position, held at the number of tokens.
    pub closed spec fn wf(&self) -> bool {
        &&& self.tokens@.len() <= usize::MAX / 2
        &&& self.pos == if self.at@ < self.tokens@.len() {
            self.at@
        } else {
            self.tokens@.len() as nat
        }
    }

    /// A parser over all the tokens that `lex` has still to hand out.
    pub fn new(lex: Lexer<'a>) -> (p: Parser<'a>)
        requires
            lex.wf(),
            lex.remaining().len() <= usize::MAX / 2,
        ensures
            p.wf(),
            p.stream() == lex.remaining(),
            p.position() == 0,
    {
        let mut lex = lex;
        let mut tokens: Vec<(Token, &'a str)> = Vec::new();
        let ghost all = lex.remaining();
        loop
            invariant
                lex.wf(),
                all.len() <= usize::MAX / 2,
                Seq::new(tokens@.len(), |i: int| (tokens@[i].0, tokens@[i].1@)) + lex.remaining()
                    == all,
            ensures
                Seq::new(tokens@.len(), |i: int| (tokens@[i].0, tokens@[i].1@)) == all,
            decreases lex.remaining().len(),
        {
            let ghost before = lex.remaining();
            let ghost seen = Seq::new(tokens@.len(), |i: int| (tokens@[i].0, tokens@[i].1@));
            match lex.next() {
                Some((tok, text)) => {
                    tokens.push((tok, text));
                    proof {
                        let now = Seq::new(tokens@.len(), |i: int| (tokens@[i].0, tokens@[i].1@));
                        assert(now =~= seen.push(before[0]));
                        assert(now + lex.remaining() =~= seen + before);
                    }
                },
                None => {
                    assert(seen + before =~= seen);
                    break ;
                },
            }
        }
        Parser { tokens, pos: 0, at: Ghost(0) }
    }

    /// The kind of the next token.
    pub fn current(&self) -> (k: SyntaxKind)
        requires
            self.wf(),
        ensures
            k == kind_at(self.stream(), self.position()),
    {
        if self.pos < self.tokens.len() {
            self.tokens[self.pos].0.to_syntax_kind()
        } else {
            SyntaxKind::Eof
        }
    }

    /// The kind of the token `n` places after the next one.
    fn kind_ahead(&self, n: usize) -> (k: SyntaxKind)
        requires
            self.wf(),
            n <= 2,
        ensures
            k == kind_at(self.stream(), self.position() + n),
    {
        let i = self.pos + n;
        if i < self.tokens.len() {
            self.tokens[i].0.to_syntax_kind()
        } else {
            SyntaxKind::Eof
        }
    }

    /// The kind of the token at position `i`.
    fn kind_at_index(&self, i: usize) -> (k: SyntaxKind)
        ensures
            k == kind_at(self.stream(), i as int),
    {
        if i < self.tokens.len() {
            self.tokens[i].0.to_syntax_kind()
        } else {
            SyntaxKind::Eof
        }
    }

    /// The number of tokens.
    fn len(&self) -> (n: usize)
        ensures
            n == self.stream().len(),
    {
        self.tokens.len()
    }

    /// The kinds of the next two tokens.
    pub fn current2(&self) -> (ks: (SyntaxKind, SyntaxKind))
        requires
            self.wf(),
        ensures
            ks == (kind_at(self.stream(), self.position()), kind_at(
                self.stream(),
                self.position() + 1,
            )),
    {
        (self.kind_ahead(0), self.kind_ahead(1))
    }

    /// The kinds of the next three tokens.
    pub fn current3(&self) -> (ks: (SyntaxKind, SyntaxKind, SyntaxKind))
        requires
            self.wf(),
        ensures
            ks == (
                kind_at(self.stream(), self.position()),
                kind_at(self.stream(), self.position() + 1),
                kind_at(self.stream(), self.position() + 2),
            ),
    {
        (self.kind_ahead(0), self.kind_ahead(1), self.kind_ahead(2))
    }

    /// Whether the next token has kind `kind`.
    pub fn is_at(&self, kind: SyntaxKind) -> (b: bool)
        requires
            self.wf(),
        ensures
            b == (kind_at(self.stream(), self.position()) == kind),
    {
        self.current() == kind
    }

    /// Moves the next token into `out`.
    pub fn bump(&mut self, out: &mut Vec<SyntaxElement>)
        requires
            old(self).wf(),
        ensures
            final(self).wf(),
            final(self).stream() == old(self).stream(),
            final(self).position() == old(self).position() + 1,
            greens_of(final(out)@) == greens_of(old(out)@).push(
                tok_at(old(self).stream(), old(self).position()),
            ),
    {
        let kind = self.current();
        let text = if self.pos < self.tokens.len() {
            self.tokens[self.pos].1
        } else {
            proof {
                reveal_strlit("");
            }
            ""
        };
        assert(text@ == text_at(self.stream(), self.position()));
        let elem = SyntaxElement::Token(SyntaxToken { kind, text: String::from_str(text) });
        proof {
            lemma_greens_push(out@, elem);
        }
        out.push(elem);
        if self.pos < self.tokens.len() {
            self.pos = self.pos + 1;
        }
        self.at = Ghost(self.at@ + 1);
    }

    /// Moves the next token into `out`, inside an `Error` node.
    pub fn err_and_bump(&mut self, out: &mut Vec<SyntaxElement>)
        requires
            old(self).wf(),
        ensures
            final(self).wf(),
            final(self).stream() == old(self).stream(),
            final(self).position() == old(self).position() + 1,
            greens_of(final(out)@) == greens_of(old(out)@).push(
                error_at(old(self).stream(), old(self).position()),
            ),
    {
        let mut children: Vec<SyntaxElement> = Vec::new();
        let ghost toks = self.stream();
        let ghost p0 = self.position();
        self.bump(&mut children);
        proof {
            assert(greens_of(Seq::<SyntaxElement>::empty()) =~= Seq::<Green>::empty());
            assert(greens_of(children@) =~= seq![tok_at(toks, p0)]);
        }
        let elem = SyntaxElement::Node(SyntaxNode { kind: SyntaxKind::Error, children });
        proof {
            lemma_greens_push(out@, elem);
        }
        out.push(elem);
    }

    /// Moves the next token into `out` if it has kind `kind`.
    pub fn try_eat(&mut self, kind: SyntaxKind, out: &mut Vec<SyntaxElement>) -> (b: bool)
        requires
            old(self).wf(),
        ensures
            final(self).wf(),
            final(self).stream() == old(self).stream(),
            b == (kind_at(old(self).stream(), old(self).position()) == kind),
            b ==> final(self).position() == old(self).position() + 1 && greens_of(final(out)@)
                == greens_of(old(out)@).push(tok_at(old(self).stream(), old(self).position())),
            !b ==> final(self).position() == old(self).position() && final(out)@ == old(out)@,
    {
        if self.is_at(kind) {
            self.bump(out);
            true
        } else {
            false
        }
    }

    /// Eats a token of kind `kind`: the next token goes into `out`, inside an
    /// `Error` node if it has another kind.
    pub fn eat(&mut self, kind: SyntaxKind, out: &mut Vec<SyntaxElement>)
        requires
            old(self).wf(),
        ensures
            final(self).wf(),
            final(self).stream() == old(self).stream(),
            final(self).position() == old(self).position() + 1,
            greens_of(final(out)@) == greens_of(old(out)@).push(
                eat_at(old(self).stream(), old(self).position(), kind),
            ),
    {
        if !self.try_eat(kind, out) {
            self.err_and_bump(out);
        }
    }
}

/// Wraps `children` in a node of kind `kind` and appends it to `out`.
fn push_node(out: &mut Vec<SyntaxElement>, kind: SyntaxKind, children: Vec<SyntaxElement>)
    ensures
        greens_of(final(out)@) == greens_of(old(out)@).push(
            Green::Node(kind, greens_of(children@)),
        ),
{
    let elem = SyntaxElement::Node(SyntaxNode { kind, children });
    proof {
        lemma_greens_push(old(out)@, elem);
    }
    out.push(elem);
}


// ---------------------------------------------------------------------------
// The grammar's productions.

/// The tokens added so far to a new node's children, starting from none.
proof fn lemma_greens_empty()
    ensures
        greens_of(Seq::<SyntaxElement>::empty()) == Seq::<Green>::empty(),
{
    assert(greens_of(Seq::<SyntaxElement>::empty()) =~= Seq::<Green>::empty());
}

/// A node of kind `kind` holding one eaten token of kind `tok`.
fn parse_single(p: &mut Parser, out: &mut Vec<SyntaxElement>, kind: SyntaxKind, tok: SyntaxKind)
    requires
        old(p).wf(),
    ensures
        final(p).wf(),
        final(p).stream() == old(p).stream(),
        final(p).position() == old(p).position() + 1,
        greens_of(final(out)@) == greens_of(old(out)@).push(
            Green::Node(kind, seq![eat_at(old(p).stream(), old(p).position(), tok)]),
        ),
{
    let ghost toks = p.stream();
    let ghost p0 = p.position();
    let mut children: Vec<SyntaxElement> = Vec::new();
    proof {
        lemma_greens_empty();
    }
    p.eat(tok, &mut children);
    assert(greens_of(children@) =~= seq![eat_at(toks, p0, tok)]);
    push_node(out, kind, children);
}

fn parse_sub_stmt(p: &mut Parser, out: &mut Vec<SyntaxElement>)
    requires
        old(p).wf(),
    ensures
        final(p).wf(),
        final(p).stream() == old(p).stream(),
        final(p).position() == old(p).position() + 6,
        greens_of(final(out)@) == greens_of(old(out)@).push(
            spec_sub_stmt(old(p).stream(), old(p).position()),
        ),
{
    let ghost toks = p.stream();
    let ghost p0 = p.position();
    let mut children: Vec<SyntaxElement> = Vec::new();
    proof {
        lemma_greens_empty();
    }
    p.eat(SyntaxKind::SubKw, &mut children);
    p.eat(SyntaxKind::Space, &mut children);
    parse_single(p, &mut children, SyntaxKind::Name, SyntaxKind::Ident);
    let mut params: Vec<SyntaxElement> = Vec::new();
    proof {
        lemma_greens_empty();
    }
    p.eat(SyntaxKind::LParen, &mut params);
    p.eat(SyntaxKind::RParen, &mut params);
    assert(greens_of(params@) =~= seq![
        eat_at(toks, p0 + 3, SyntaxKind::LParen),
        eat_at(toks, p0 + 4, SyntaxKind::RParen),
    ]);
    push_node(&mut children, SyntaxKind::ParamList, params);
    p.eat(SyntaxKind::Eol, &mut children);
    assert(greens_of(children@) =~= green_children(spec_sub_stmt(toks, p0)));
    push_node(out, SyntaxKind::SubStmt, children);
}

/// The literal argument list at the parser's position, which must be a
/// string literal; any other argument is a grammar violation that the
/// parser does not recover from, so callers rule it out.
fn parse_arg_list(p: &mut Parser, out: &mut Vec<SyntaxElement>)
    requires
        old(p).wf(),
        spec_arg_list(old(p).stream(), old(p).position()) is Some,
    ensures
        final(p).wf(),
        final(p).stream() == old(p).stream(),
        final(p).position() == old(p).position() + 1,
        greens_of(final(out)@) == greens_of(old(out)@).push(
            spec_arg_list(old(p).stream(), old(p).position())->0,
        ),
{
    let ghost toks = p.stream();
    let ghost p0 = p.position();
    let mut arg: Vec<SyntaxElement> = Vec::new();
    proof {
        lemma_greens_empty();
    }
    let is_literal = try_parse_literal(p, &mut arg);
    assert(is_literal);
    let mut args: Vec<SyntaxElement> = Vec::new();
    proof {
        lemma_greens_empty();
    }
    push_node(&mut args, SyntaxKind::Arg, arg);
    push_node(out, SyntaxKind::ArgList, args);
}

/// A string literal expression, if the next token is a string literal.
fn try_parse_literal(p: &mut Parser, out: &mut Vec<SyntaxElement>) -> (b: bool)
    requires
        old(p).wf(),
    ensures
        final(p).wf(),
        final(p).stream() == old(p).stream(),
        b == (kind_at(old(p).stream(), old(p).position()) == SyntaxKind::StringLit),
        b ==> final(p).position() == old(p).position() + 1 && greens_of(final(out)@) == greens_of(
            old(out)@,
        ).push(
            Green::Node(SyntaxKind::LiteralExpr, seq![tok_at(old(p).stream(), old(p).position())]),
        ),
        !b ==> final(p).position() == old(p).position() && final(out)@ == old(out)@,
{
    if p.current() != SyntaxKind::StringLit {
        return false;
    }
    parse_single(p, out, SyntaxKind::LiteralExpr, SyntaxKind::StringLit);
    true
}

fn parse_implicit_call_stmt(p: &mut Parser, out: &mut Vec<SyntaxElement>)
    requires
        old(p).wf(),
        spec_implicit_call(old(p).stream(), old(p).position()) is Some,
    ensures
        final(p).wf(),
        final(p).stream() == old(p).stream(),
        final(p).position() == after(spec_implicit_call(old(p).stream(), old(p).position())),
        greens_of(final(out)@) == greens_of(old(out)@).push(
            built(spec_implicit_call(old(p).stream(), old(p).position())),
        ),
{
    let ghost toks = p.stream();
    let ghost p0 = p.position();
    let mut children: Vec<SyntaxElement> = Vec::new();
    proof {
        lemma_greens_empty();
    }
    parse_single(p, &mut children, SyntaxKind::NameRef, SyntaxKind::Ident);
    p.eat(SyntaxKind::Space, &mut children);
    parse_arg_list(p, &mut children);
    p.eat(SyntaxKind::Eol, &mut children);
    assert(greens_of(children@) =~= green_children(built(spec_implicit_call(toks, p0))));
    push_node(out, SyntaxKind::ImplicitCallStmt, children);
}

fn parse_explicit_call_stmt(p: &mut Parser, out: &mut Vec<SyntaxElement>)
    requires
        old(p).wf(),
        spec_explicit_call(old(p).stream(), old(p).position()) is Some,
    ensures
        final(p).wf(),
        final(p).stream() == old(p).stream(),
        final(p).position() == after(spec_explicit_call(old(p).stream(), old(p).position())),
        greens_of(final(out)@) == greens_of(old(out)@).push(
            built(spec_explicit_call(old(p).stream(), old(p).position())),
        ),
{
    let ghost toks = p.stream();
    let ghost p0 = p.position();
    let mut children: Vec<SyntaxElement> = Vec::new();
    proof {
        lemma_greens_empty();
    }
    p.eat(SyntaxKind::CallKw, &mut children);
    p.eat(SyntaxKind::Space, &mut children);
    parse_single(p, &mut children, SyntaxKind::NameRef, SyntaxKind::Ident);
    p.eat(SyntaxKind::LParen, &mut children);
    parse_arg_list(p, &mut children);
    p.eat(SyntaxKind::RParen, &mut children);
    p.eat(SyntaxKind::Eol, &mut children);
    assert(greens_of(children@) =~= green_children(built(spec_explicit_call(toks, p0))));
    push_node(out, SyntaxKind::ExplicitCallStmt, children);
}

fn parse_stmt(p: &mut Parser, out: &mut Vec<SyntaxElement>)
    requires
        old(p).wf(),
        spec_stmt(old(p).stream(), old(p).position()) is Some,
    ensures
        final(p).wf(),
        final(p).stream() == old(p).stream(),
        final(p).position() == after(spec_stmt(old(p).stream(), old(p).position())),
        greens_of(final(out)@) == greens_of(old(out)@) + built(spec_stmt(
            old(p).stream(),
            old(p).position(),
        )),
{
    let ghost toks = p.stream();
    let ghost p0 = p.position();
    let ghost before = greens_of(out@);
    let k = p.current();
    match k {
        SyntaxKind::Eof => {
            assert(before + Seq::<Green>::empty() =~= before);
        },
        SyntaxKind::Space | SyntaxKind::Eol => {
            p.bump(out);
            assert(before.push(tok_at(toks, p0)) =~= before + seq![tok_at(toks, p0)]);
        },
        SyntaxKind::Ident => {
            parse_implicit_call_stmt(p, out);
            assert(before.push(built(spec_implicit_call(toks, p0))) =~= before + seq![
                built(spec_implicit_call(toks, p0)),
            ]);
        },
        SyntaxKind::CallKw => {
            parse_explicit_call_stmt(p, out);
            assert(before.push(built(spec_explicit_call(toks, p0))) =~= before + seq![
                built(spec_explicit_call(toks, p0)),
            ]);
        },
        _ => {
            p.err_and_bump(out);
            assert(before.push(error_at(toks, p0)) =~= before + seq![error_at(toks, p0)]);
        },
    }
}

/// Where the statements end, `End Sub` or the end of the input follows.
proof fn lemma_stmts_end(toks: Seq<(Token, Seq<char>)>, p: int)
    requires
        spec_stmts(toks, p) is Some,
    ensures
        at_end_sub(toks, after(spec_stmts(toks, p))) || kind_at(
            toks,
            after(spec_stmts(toks, p)),
        ) == SyntaxKind::Eof,
        p <= after(spec_stmts(toks, p)),
    decreases toks.len() - p,
{
    if !at_end_sub(toks, p) && kind_at(toks, p) != SyntaxKind::Eof {
        let (q, gs) = spec_stmt(toks, p)->0;
        lemma_stmt_text(toks, p);
        if p < q && q < toks.len() {
            lemma_stmts_end(toks, q);
        }
    }
}

/// Past the end of the tokens the statements are over at once.
proof fn lemma_stmts_past_end(toks: Seq<(Token, Seq<char>)>, q: int)
    requires
        q >= toks.len(),
    ensures
        spec_stmts(toks, q) == Some((q, Seq::<Green>::empty())),
{
}

/// How far the parser has got into the tokens: its position, held at the
/// number of tokens.
pub open spec fn progress(toks: Seq<(Token, Seq<char>)>, p: int) -> int {
    if p < toks.len() {
        p
    } else {
        toks.len() as int
    }
}

/// Whether `End Sub` stands at the parser's position.
fn at_end_sub_now(p: &Parser) -> (b: bool)
    requires
        p.wf(),
    ensures
        b == at_end_sub(p.stream(), p.position()),
{
    let (a, b, c) = p.current3();
    a == SyntaxKind::EndKw && b == SyntaxKind::Space && c == SyntaxKind::SubKw
}

/// A statement list: statements up to `End Sub` or the end of the input.
fn parse_stmt_list(p: &mut Parser, out: &mut Vec<SyntaxElement>)
    requires
        old(p).wf(),
        spec_stmts(old(p).stream(), old(p).position()) is Some,
    ensures
        final(p).wf(),
        final(p).stream() == old(p).stream(),
        final(p).position() == after(spec_stmts(old(p).stream(), old(p).position())),
        greens_of(final(out)@) == greens_of(old(out)@).push(
            Green::Node(
                SyntaxKind::StmtList,
                built(spec_stmts(old(p).stream(), old(p).position())),
            ),
        ),
{
    let ghost toks = p.stream();
    let ghost p0 = p.position();
    let mut children: Vec<SyntaxElement> = Vec::new();
    proof {
        lemma_greens_empty();
        assert(Seq::<Green>::empty() + built(spec_stmts(toks, p0)) =~= built(spec_stmts(toks, p0)));
        lemma_stmts_end(toks, p0);
    }
    while !at_end_sub_now(p) && p.current() != SyntaxKind::Eof
        invariant
            p.wf(),
            p.stream() == toks,
            spec_stmts(toks, p.position()) is Some,
            after(spec_stmts(toks, p0)) == after(spec_stmts(toks, p.position())),
            built(spec_stmts(toks, p0)) == greens_of(children@) + built(spec_stmts(
                toks,
                p.position(),
            )),
        decreases toks.len() - progress(toks, p.position()),
    {
        let ghost pos = p.position();
        let ghost here = greens_of(children@);
        let ghost step = spec_stmt(toks, pos)->0;
        proof {
            lemma_stmt_text(toks, pos);
        }
        parse_stmt(p, &mut children);
        proof {
            if step.0 < toks.len() {
                let rest = built(spec_stmts(toks, step.0));
                assert(here + (step.1 + rest) =~= (here + step.1) + rest);
            } else {
                lemma_stmts_past_end(toks, step.0);
                assert(here + step.1 + Seq::<Green>::empty() =~= here + step.1);
            }
        }
    }
    assert(greens_of(children@) + Seq::<Green>::empty() =~= greens_of(children@));
    push_node(out, SyntaxKind::StmtList, children);
}

fn parse_end_sub_stmt(p: &mut Parser, out: &mut Vec<SyntaxElement>)
    requires
        old(p).wf(),
    ensures
        final(p).wf(),
        final(p).stream() == old(p).stream(),
        final(p).position() == spec_end_sub_stmt(old(p).stream(), old(p).position()).0,
        greens_of(final(out)@) == greens_of(old(out)@).push(
            spec_end_sub_stmt(old(p).stream(), old(p).position()).1,
        ),
{
    let ghost toks = p.stream();
    let ghost p0 = p.position();
    let mut children: Vec<SyntaxElement> = Vec::new();
    proof {
        lemma_greens_empty();
    }
    p.eat(SyntaxKind::EndKw, &mut children);
    p.eat(SyntaxKind::Space, &mut children);
    p.eat(SyntaxKind::SubKw, &mut children);
    // a line end, or the end of the input
    match p.current() {
        SyntaxKind::Eol | SyntaxKind::Eof => p.bump(&mut children),
        _ => {},
    }
    assert(greens_of(children@) =~= green_children(spec_end_sub_stmt(toks, p0).1));
    push_node(out, SyntaxKind::EndSubStmt, children);
}

fn parse_sub_block(p: &mut Parser, out: &mut Vec<SyntaxElement>)
    requires
        old(p).wf(),
        spec_sub_block(old(p).stream(), old(p).position()) is Some,
    ensures
        final(p).wf(),
        final(p).stream() == old(p).stream(),
        final(p).position() == after(spec_sub_block(old(p).stream(), old(p).position())),
        greens_of(final(out)@) == greens_of(old(out)@).push(
            built(spec_sub_block(old(p).stream(), old(p).position())),
        ),
{
    let ghost toks = p.stream();
    let ghost p0 = p.position();
    proof {
        lemma_stmts_end(toks, p0 + 6);
    }
    let mut children: Vec<SyntaxElement> = Vec::new();
    proof {
        lemma_greens_empty();
    }
    parse_sub_stmt(p, &mut children);
    parse_stmt_list(p, &mut children);
    parse_end_sub_stmt(p, &mut children);
    assert(greens_of(children@) =~= green_children(built(spec_sub_block(toks, p0))));
    push_node(out, SyntaxKind::SubBlock, children);
}

/// The whole file: blanks, `Sub` blocks and errors up to the first `Eof`.
fn parse_bas_file(p: &mut Parser) -> (file: SyntaxNode)
    requires
        old(p).wf(),
        old(p).position() == 0,
        spec_parse(old(p).stream()) is Some,
    ensures
        file@ == spec_parse(old(p).stream())->0,
{
    let ghost toks = p.stream();
    let mut children: Vec<SyntaxElement> = Vec::new();
    proof {
        lemma_greens_empty();
        assert(Seq::<Green>::empty() + built(spec_file_items(toks, 0)) =~= built(spec_file_items(
            toks,
            0,
        )));
    }
    while p.current() != SyntaxKind::Eof
        invariant
            p.wf(),
            p.stream() == toks,
            spec_file_items(toks, p.position()) is Some,
            built(spec_file_items(toks, 0)) == greens_of(children@) + built(spec_file_items(
                toks,
                p.position(),
            )),
        decreases toks.len() - progress(toks, p.position()),
    {
        let ghost pos = p.position();
        let ghost here = greens_of(children@);
        let ghost step = spec_file_item(toks, pos)->0;
        match p.current() {
            SyntaxKind::Space | SyntaxKind::Eol => {
                p.bump(&mut children);
                assert(here.push(tok_at(toks, pos)) =~= here + seq![tok_at(toks, pos)]);
            },
            SyntaxKind::SubKw => {
                proof {
                    lemma_stmts_end(toks, pos + 6);
                }
                parse_sub_block(p, &mut children);
                assert(here.push(built(spec_sub_block(toks, pos))) =~= here + seq![
                    built(spec_sub_block(toks, pos)),
                ]);
            },
            _ => {
                p.err_and_bump(&mut children);
                assert(here.push(error_at(toks, pos)) =~= here + seq![error_at(toks, pos)]);
            },
        }
        proof {
            if pos < step.0 && step.0 < toks.len() {
                let rest = built(spec_file_items(toks, step.0));
                assert(here + (step.1 + rest) =~= (here + step.1) + rest);
            } else {
                assert(built(spec_file_items(toks, step.0)) =~= Seq::<Green>::empty());
                assert(here + step.1 + Seq::<Green>::empty() =~= here + step.1);
            }
        }
    }
    assert(greens_of(children@) + Seq::<Green>::empty() =~= greens_of(children@));
    SyntaxNode { kind: SyntaxKind::BasFile, children }
}


/// Parses the tokens that `lex` has still to hand out into a `BasFile`. A
/// `Sub` whose `End Sub` is missing ends with the input. Where the parser
/// would stop on a failed assertion (an argument that is not a string
/// literal), it is not to be called: `will_parse` tells.
pub fn parse(lex: Lexer) -> (file: BasFile)
    requires
        lex.wf(),
        lex.remaining().len() <= usize::MAX / 2,
        spec_parse(lex.remaining()) is Some,
    ensures
        spec_parse(lex.remaining()) == Some(file@),
{
    let mut parser = Parser::new(lex);
    let node = parse_bas_file(&mut parser);
    BasFile::cast(node).unwrap()
}


/// Where the statements from `pos` end, if the parser gets through them.
fn stmts_end(p: &Parser, pos: usize) -> (r: Option<usize>)
    requires
        p.wf(),
        pos <= p.stream().len() + 6,
    ensures
        r is Some <==> spec_stmts(p.stream(), pos as int) is Some,
        r matches Some(q) ==> q == after(spec_stmts(p.stream(), pos as int)) && q <= p.stream().len()
            + 6,
{
    let ghost toks = p.stream();
    let len = p.len();
    let mut i = pos;
    while !(p.kind_at_index(i) == SyntaxKind::EndKw && p.kind_at_index(i + 1) == SyntaxKind::Space
        && p.kind_at_index(i + 2) == SyntaxKind::SubKw) && p.kind_at_index(i) != SyntaxKind::Eof
        invariant
            p.wf(),
            len == toks.len(),
            toks == p.stream(),
            pos <= i <= len + 6,
            spec_stmts(toks, pos as int) is Some <==> spec_stmts(toks, i as int) is Some,
            spec_stmts(toks, i as int) is Some ==> after(spec_stmts(toks, pos as int)) == after(
                spec_stmts(toks, i as int),
            ),
        decreases len - progress(toks, i as int),
    {
        let ghost step = spec_stmt(toks, i as int);
        let k = p.kind_at_index(i);
        let next = if k == SyntaxKind::Ident {
            if p.kind_at_index(i + 2) != SyntaxKind::StringLit {
                return None;
            }
            i + 4
        } else if k == SyntaxKind::CallKw {
            if p.kind_at_index(i + 4) != SyntaxKind::StringLit {
                return None;
            }
            i + 7
        } else {
            i + 1
        };
        proof {
            assert(step is Some && after(step) == next);
            if next >= len {
                lemma_stmts_past_end(toks, next as int);
            }
        }
        i = next;
    }
    Some(i)
}

/// Whether the parser gets through the tokens that `lex` has still to hand
/// out, that is, whether `parse` may be called on it: every argument is a
/// string literal.
pub fn will_parse(lex: Lexer) -> (b: bool)
    requires
        lex.wf(),
        lex.remaining().len() <= usize::MAX / 2,
    ensures
        b == spec_parse(lex.remaining()) is Some,
{
    let p = Parser::new(lex);
    let ghost toks = p.stream();
    let len = p.len();
    let mut i: usize = 0;
    while p.kind_at_index(i) != SyntaxKind::Eof
        invariant
            p.wf(),
            len == toks.len(),
            toks == p.stream(),
            i <= len + 10,
            toks == lex.remaining(),
            spec_file_items(toks, 0) is Some <==> spec_file_items(toks, i as int) is Some,
        decreases len - progress(toks, i as int),
    {
        let k = p.kind_at_index(i);
        let next = if k == SyntaxKind::SubKw {
            match stmts_end(&p, i + 6) {
                None => {
                    proof {
                        assert(spec_sub_block(toks, i as int) is None);
                        assert(spec_file_item(toks, i as int) is None);
                        assert(spec_file_items(toks, i as int) is None);
                    }
                    return false;
                },
                Some(q) => {
                    proof {
                        lemma_stmts_end(toks, i + 6);
                    }
                    let k3 = p.kind_at_index(q + 3);
                    if k3 == SyntaxKind::Eol || k3 == SyntaxKind::Eof {
                        q + 4
                    } else {
                        q + 3
                    }
                },
            }
        } else {
            i + 1
        };
        proof {
            assert(spec_file_item(toks, i as int) is Some);
            assert(after(spec_file_item(toks, i as int)) == next);
        }
        i = next;
    }
    true
}


// ---------------------------------------------------------------------------
// The shape of the tree.

/// The token at `p` as a tree token of kind `k`.
pub open spec fn leaf(toks: Seq<(Token, Seq<char>)>, p: int, k: SyntaxKind) -> Green {
    Green::Token(k, toks[p].1)
}

/// A `Sub` with one implicit call, `Sub Name()`, `Name "text"`, `End Sub`,
/// each on its line, parses to a file holding one `Sub` block: its header
/// (`Sub`, a space, the name, the empty parameter list, the line end), its
/// statement list with the call (the called name, a space, the string
/// literal as its one argument, the line end), and `End Sub` with its line
/// end. Every token keeps its text.
pub proof fn lemma_parse_sub_with_call(toks: Seq<(Token, Seq<char>)>)
    requires
        toks.len() == 15,
        toks[0].0 == Token::SubKw,
        toks[1].0 == Token::Space,
        toks[2].0 == Token::Ident,
        toks[3].0 == Token::LParen,
        toks[4].0 == Token::RParen,
        toks[5].0 == Token::Eol,
        toks[6].0 == Token::Ident,
        toks[7].0 == Token::Space,
        toks[8].0 == Token::StringLit,
        toks[9].0 == Token::Eol,
        toks[10].0 == Token::EndKw,
        toks[11].0 == Token::Space,
        toks[12].0 == Token::SubKw,
        toks[13].0 == Token::Eol,
        toks[14].0 == Token::Eof,
    ensures
        spec_parse(toks) == Some(
            Green::Node(
                SyntaxKind::BasFile,
                seq![
                    Green::Node(
                        SyntaxKind::SubBlock,
                        seq![
                            Green::Node(
                                SyntaxKind::SubStmt,
                                seq![
                                    leaf(toks, 0, SyntaxKind::SubKw),
                                    leaf(toks, 1, SyntaxKind::Space),
                                    Green::Node(SyntaxKind::Name, seq![leaf(toks, 2, SyntaxKind::Ident)]),
                                    Green::Node(
                                        SyntaxKind::ParamList,
                                        seq![leaf(toks, 3, SyntaxKind::LParen), leaf(toks, 4, SyntaxKind::RParen)],
                                    ),
                                    leaf(toks, 5, SyntaxKind::Eol),
                                ],
                            ),
                            Green::Node(
                                SyntaxKind::StmtList,
                                seq![
                                    Green::Node(
                                        SyntaxKind::ImplicitCallStmt,
                                        seq![
                                            Green::Node(
                                                SyntaxKind::NameRef,
                                                seq![leaf(toks, 6, SyntaxKind::Ident)],
                                            ),
                                            leaf(toks, 7, SyntaxKind::Space),
                                            Green::Node(
                                                SyntaxKind::ArgList,
                                                seq![
                                                    Green::Node(
                                                        SyntaxKind::Arg,
                                                        seq![
                                                            Green::Node(
                                                                SyntaxKind::LiteralExpr,
                                                                seq![leaf(toks, 8, SyntaxKind::StringLit)],
                                                            ),
                                                        ],
                                                    ),
                                                ],
                                            ),
                                            leaf(toks, 9, SyntaxKind::Eol),
                                        ],
                                    ),
                                ],
                            ),
                            Green::Node(
                                SyntaxKind::EndSubStmt,
                                seq![
                                    leaf(toks, 10, SyntaxKind::EndKw),
                                    leaf(toks, 11, SyntaxKind::Space),
                                    leaf(toks, 12, SyntaxKind::SubKw),
                                    leaf(toks, 13, SyntaxKind::Eol),
                                ],
                            ),
                        ],
                    ),
                ],
            ),
        ),
{
    assert(at_end_sub(toks, 10));
    assert(spec_stmts(toks, 10) == Some((10int, Seq::<Green>::empty())));
    assert(!at_end_sub(toks, 6));
    assert(spec_implicit_call(toks, 6) is Some);
    assert(spec_stmt(toks, 6) is Some);
    let call = built(spec_implicit_call(toks, 6));
    assert(spec_stmts(toks, 6) == Some((10int, seq![call] + Seq::<Green>::empty())));
    assert(seq![call] + Seq::<Green>::empty() =~= seq![call]);
    let blk = built(spec_sub_block(toks, 0));
    assert(spec_sub_block(toks, 0) is Some);
    assert(after(spec_sub_block(toks, 0)) == 14);
    assert(spec_file_items(toks, 14) == Some((14int, Seq::<Green>::empty())));
    assert(spec_file_items(toks, 0) == Some((14int, seq![blk] + Seq::<Green>::empty())));
    assert(seq![blk] + Seq::<Green>::empty() =~= seq![blk]);
    assert(eat_at(toks, 0, SyntaxKind::SubKw) == leaf(toks, 0, SyntaxKind::SubKw));
    assert(eat_at(toks, 1, SyntaxKind::Space) == leaf(toks, 1, SyntaxKind::Space));
    assert(eat_at(toks, 2, SyntaxKind::Ident) == leaf(toks, 2, SyntaxKind::Ident));
    assert(eat_at(toks, 3, SyntaxKind::LParen) == leaf(toks, 3, SyntaxKind::LParen));
    assert(eat_at(toks, 4, SyntaxKind::RParen) == leaf(toks, 4, SyntaxKind::RParen));
    assert(eat_at(toks, 5, SyntaxKind::Eol) == leaf(toks, 5, SyntaxKind::Eol));
    assert(eat_at(toks, 6, SyntaxKind::Ident) == leaf(toks, 6, SyntaxKind::Ident));
    assert(eat_at(toks, 7, SyntaxKind::Space) == leaf(toks, 7, SyntaxKind::Space));
    assert(tok_at(toks, 8) == leaf(toks, 8, SyntaxKind::StringLit));
    assert(eat_at(toks, 9, SyntaxKind::Eol) == leaf(toks, 9, SyntaxKind::Eol));
    assert(eat_at(toks, 10, SyntaxKind::EndKw) == leaf(toks, 10, SyntaxKind::EndKw));
    assert(eat_at(toks, 11, SyntaxKind::Space) == leaf(toks, 11, SyntaxKind::Space));
    assert(eat_at(toks, 12, SyntaxKind::SubKw) == leaf(toks, 12, SyntaxKind::SubKw));
    assert(tok_at(toks, 13) == leaf(toks, 13, SyntaxKind::Eol));
    let end = spec_end_sub_stmt(toks, 10);
    assert(end.0 == 14);
    assert(end.1 == Green::Node(
        SyntaxKind::EndSubStmt,
        seq![
            leaf(toks, 10, SyntaxKind::EndKw),
            leaf(toks, 11, SyntaxKind::Space),
            leaf(toks, 12, SyntaxKind::SubKw),
            leaf(toks, 13, SyntaxKind::Eol),
        ],
    )) by {
        assert(seq![
            eat_at(toks, 10, SyntaxKind::EndKw),
            eat_at(toks, 11, SyntaxKind::Space),
            eat_at(toks, 12, SyntaxKind::SubKw),
        ].push(tok_at(toks, 13)) =~= seq![
            leaf(toks, 10, SyntaxKind::EndKw),
            leaf(toks, 11, SyntaxKind::Space),
            leaf(toks, 12, SyntaxKind::SubKw),
            leaf(toks, 13, SyntaxKind::Eol),
        ]);
    }
}

/// At the top of a file, a token that starts nothing (not a blank, a line
/// end, `Sub` or the end) goes into the tree inside an `Error` node, with its
/// kind and text, and the parser goes on with the next token.
pub proof fn lemma_stray_token_is_error(toks: Seq<(Token, Seq<char>)>, p: int)
    requires
        0 <= p < toks.len(),
        toks[p].0 != Token::Space && toks[p].0 != Token::Eol && toks[p].0 != Token::SubKw
            && toks[p].0 != Token::Eof,
    ensures
        spec_file_item(toks, p) == Some(
            (p + 1, seq![Green::Node(SyntaxKind::Error, seq![Green::Token(token_kind(toks[p].0), toks[p].1)])]),
        ),
{
}

// ---------------------------------------------------------------------------
// The tree loses nothing of the input.

proof fn lemma_text_push(gs: Seq<Green>, g: Green)
    ensures
        greens_text(gs.push(g)) == greens_text(gs) + green_text(g),
{
    lemma_greens_text_push(gs, g);
}

proof fn lemma_text_empty()
    ensures
        greens_text(Seq::<Green>::empty()) == Seq::<char>::empty(),
{
}

proof fn lemma_text_1(a: Green)
    ensures
        greens_text(seq![a]) == green_text(a),
{
    lemma_greens_text_single(a);
}

proof fn lemma_text_2(a: Green, b: Green)
    ensures
        greens_text(seq![a, b]) == green_text(a) + green_text(b),
{
    assert(seq![a, b] =~= seq![a].push(b));
    lemma_text_1(a);
    lemma_text_push(seq![a], b);
}

proof fn lemma_text_3(a: Green, b: Green, c: Green)
    ensures
        greens_text(seq![a, b, c]) == green_text(a) + green_text(b) + green_text(c),
{
    assert(seq![a, b, c] =~= seq![a, b].push(c));
    lemma_text_2(a, b);
    lemma_text_push(seq![a, b], c);
}

proof fn lemma_text_4(a: Green, b: Green, c: Green, d: Green)
    ensures
        greens_text(seq![a, b, c, d]) == green_text(a) + green_text(b) + green_text(c)
            + green_text(d),
{
    assert(seq![a, b, c, d] =~= seq![a, b, c].push(d));
    lemma_text_3(a, b, c);
    lemma_text_push(seq![a, b, c], d);
}

proof fn lemma_text_5(a: Green, b: Green, c: Green, d: Green, e: Green)
    ensures
        greens_text(seq![a, b, c, d, e]) == green_text(a) + green_text(b) + green_text(c)
            + green_text(d) + green_text(e),
{
    assert(seq![a, b, c, d, e] =~= seq![a, b, c, d].push(e));
    lemma_text_4(a, b, c, d);
    lemma_text_push(seq![a, b, c, d], e);
}

proof fn lemma_text_7(a: Green, b: Green, c: Green, d: Green, e: Green, f: Green, g: Green)
    ensures
        greens_text(seq![a, b, c, d, e, f, g]) == green_text(a) + green_text(b) + green_text(c)
            + green_text(d) + green_text(e) + green_text(f) + green_text(g),
{
    assert(seq![a, b, c, d, e, f, g] =~= seq![a, b, c, d, e].push(f).push(g));
    lemma_text_5(a, b, c, d, e);
    lemma_text_push(seq![a, b, c, d, e], f);
    lemma_text_push(seq![a, b, c, d, e].push(f), g);
}

/// Stream texts add up over adjacent stretches.
pub proof fn lemma_stream_text_split(toks: Seq<(Token, Seq<char>)>, p: int, q: int, r: int)
    requires
        p <= q <= r,
    ensures
        stream_text(toks, p, r) == stream_text(toks, p, q) + stream_text(toks, q, r),
    decreases r - q,
{
    if q == r {
        assert(stream_text(toks, p, q) + Seq::<char>::empty() =~= stream_text(toks, p, q));
    } else {
        lemma_stream_text_split(toks, p, q, r - 1);
        assert(stream_text(toks, p, q) + stream_text(toks, q, r - 1) + text_at(toks, r - 1)
            =~= stream_text(toks, p, q) + (stream_text(toks, q, r - 1) + text_at(toks, r - 1)));
    }
}

proof fn lemma_stream_text_one(toks: Seq<(Token, Seq<char>)>, p: int)
    ensures
        stream_text(toks, p, p + 1) == text_at(toks, p),
{
    assert(stream_text(toks, p, p) == Seq::<char>::empty());
    assert(Seq::<char>::empty() + text_at(toks, p) =~= text_at(toks, p));
}

/// The text of `n` consecutive tokens, one by one.
proof fn lemma_stream_text_steps(toks: Seq<(Token, Seq<char>)>, p: int, n: int)
    requires
        0 <= n <= 7,
    ensures
        n >= 1 ==> stream_text(toks, p, p + n) == stream_text(toks, p, p + n - 1) + text_at(
            toks,
            p + n - 1,
        ),
{
}

proof fn lemma_eat_text(toks: Seq<(Token, Seq<char>)>, p: int, k: SyntaxKind)
    ensures
        green_text(eat_at(toks, p, k)) == text_at(toks, p),
        green_text(error_at(toks, p)) == text_at(toks, p),
        green_text(tok_at(toks, p)) == text_at(toks, p),
{
    lemma_text_1(tok_at(toks, p));
}

proof fn lemma_sub_stmt_text(toks: Seq<(Token, Seq<char>)>, p: int)
    ensures
        green_text(spec_sub_stmt(toks, p)) == stream_text(toks, p, p + 6),
{
    let a = eat_at(toks, p, SyntaxKind::SubKw);
    let b = eat_at(toks, p + 1, SyntaxKind::Space);
    let c0 = eat_at(toks, p + 2, SyntaxKind::Ident);
    let d0 = eat_at(toks, p + 3, SyntaxKind::LParen);
    let d1 = eat_at(toks, p + 4, SyntaxKind::RParen);
    let e = eat_at(toks, p + 5, SyntaxKind::Eol);
    let c = Green::Node(SyntaxKind::Name, seq![c0]);
    let d = Green::Node(SyntaxKind::ParamList, seq![d0, d1]);
    lemma_eat_text(toks, p, SyntaxKind::SubKw);
    lemma_eat_text(toks, p + 1, SyntaxKind::Space);
    lemma_eat_text(toks, p + 2, SyntaxKind::Ident);
    lemma_eat_text(toks, p + 3, SyntaxKind::LParen);
    lemma_eat_text(toks, p + 4, SyntaxKind::RParen);
    lemma_eat_text(toks, p + 5, SyntaxKind::Eol);
    lemma_text_1(c0);
    lemma_text_2(d0, d1);
    lemma_text_5(a, b, c, d, e);
    lemma_stream_text_steps(toks, p, 6);
    lemma_stream_text_steps(toks, p, 5);
    lemma_stream_text_steps(toks, p, 4);
    lemma_stream_text_steps(toks, p, 3);
    lemma_stream_text_steps(toks, p, 2);
    lemma_stream_text_steps(toks, p, 1);
    assert(stream_text(toks, p, p) == Seq::<char>::empty());
    assert(green_text(spec_sub_stmt(toks, p)) =~= stream_text(toks, p, p + 6));
}

proof fn lemma_arg_list_text(toks: Seq<(Token, Seq<char>)>, p: int)
    requires
        spec_arg_list(toks, p) is Some,
    ensures
        green_text(spec_arg_list(toks, p)->0) == text_at(toks, p),
{
    let lit = Green::Node(SyntaxKind::LiteralExpr, seq![tok_at(toks, p)]);
    let arg = Green::Node(SyntaxKind::Arg, seq![lit]);
    lemma_eat_text(toks, p, SyntaxKind::StringLit);
    lemma_text_1(tok_at(toks, p));
    lemma_text_1(lit);
    lemma_text_1(arg);
}

proof fn lemma_stmt_text(toks: Seq<(Token, Seq<char>)>, p: int)
    requires
        spec_stmt(toks, p) is Some,
    ensures
        p <= after(spec_stmt(toks, p)),
        kind_at(toks, p) != SyntaxKind::Eof ==> p < after(spec_stmt(toks, p)),
        greens_text(built(spec_stmt(toks, p))) == stream_text(toks, p, after(spec_stmt(toks, p))),
{
    let k = kind_at(toks, p);
    lemma_stream_text_steps(toks, p, 7);
    lemma_stream_text_steps(toks, p, 6);
    lemma_stream_text_steps(toks, p, 5);
    lemma_stream_text_steps(toks, p, 4);
    lemma_stream_text_steps(toks, p, 3);
    lemma_stream_text_steps(toks, p, 2);
    lemma_stream_text_steps(toks, p, 1);
    assert(stream_text(toks, p, p) == Seq::<char>::empty());
    if k == SyntaxKind::Eof {
        lemma_text_empty();
    } else if k == SyntaxKind::Space || k == SyntaxKind::Eol {
        lemma_eat_text(toks, p, k);
        lemma_text_1(tok_at(toks, p));
        assert(stream_text(toks, p, p + 1) =~= text_at(toks, p));
    } else if k == SyntaxKind::Ident {
        let g = built(spec_implicit_call(toks, p));
        let args = spec_arg_list(toks, p + 2)->0;
        let a = Green::Node(SyntaxKind::NameRef, seq![eat_at(toks, p, SyntaxKind::Ident)]);
        lemma_eat_text(toks, p, SyntaxKind::Ident);
        lemma_eat_text(toks, p + 1, SyntaxKind::Space);
        lemma_eat_text(toks, p + 3, SyntaxKind::Eol);
        lemma_text_1(eat_at(toks, p, SyntaxKind::Ident));
        lemma_arg_list_text(toks, p + 2);
        lemma_text_4(a, eat_at(toks, p + 1, SyntaxKind::Space), args, eat_at(toks, p + 3, SyntaxKind::Eol));
        lemma_text_1(g);
        assert(greens_text(built(spec_stmt(toks, p))) =~= stream_text(toks, p, p + 4));
    } else if k == SyntaxKind::CallKw {
        let g = built(spec_explicit_call(toks, p));
        let args = spec_arg_list(toks, p + 4)->0;
        let c = Green::Node(SyntaxKind::NameRef, seq![eat_at(toks, p + 2, SyntaxKind::Ident)]);
        lemma_eat_text(toks, p, SyntaxKind::CallKw);
        lemma_eat_text(toks, p + 1, SyntaxKind::Space);
        lemma_eat_text(toks, p + 2, SyntaxKind::Ident);
        lemma_eat_text(toks, p + 3, SyntaxKind::LParen);
        lemma_eat_text(toks, p + 5, SyntaxKind::RParen);
        lemma_eat_text(toks, p + 6, SyntaxKind::Eol);
        lemma_text_1(eat_at(toks, p + 2, SyntaxKind::Ident));
        lemma_arg_list_text(toks, p + 4);
        lemma_text_7(
            eat_at(toks, p, SyntaxKind::CallKw),
            eat_at(toks, p + 1, SyntaxKind::Space),
            c,
            eat_at(toks, p + 3, SyntaxKind::LParen),
            args,
            eat_at(toks, p + 5, SyntaxKind::RParen),
            eat_at(toks, p + 6, SyntaxKind::Eol),
        );
        lemma_text_1(g);
        assert(greens_text(built(spec_stmt(toks, p))) =~= stream_text(toks, p, p + 7));
    } else {
        lemma_eat_text(toks, p, k);
        lemma_text_1(error_at(toks, p));
        assert(stream_text(toks, p, p + 1) =~= text_at(toks, p));
    }
}

proof fn lemma_stmts_text(toks: Seq<(Token, Seq<char>)>, p: int)
    requires
        spec_stmts(toks, p) is Some,
    ensures
        greens_text(built(spec_stmts(toks, p))) == stream_text(toks, p, after(spec_stmts(toks, p))),
    decreases toks.len() - p,
{
    if at_end_sub(toks, p) || kind_at(toks, p) == SyntaxKind::Eof {
        lemma_text_empty();
    } else {
        let (q, gs) = spec_stmt(toks, p)->0;
        lemma_stmt_text(toks, p);
        if p < q && q < toks.len() {
            lemma_stmts_text(toks, q);
            lemma_stmts_end(toks, q);
            let (r, rest) = spec_stmts(toks, q)->0;
            lemma_greens_text_concat(gs, rest);
            lemma_stream_text_split(toks, p, q, r);
        }
    }
}

proof fn lemma_sub_block_text(toks: Seq<(Token, Seq<char>)>, p: int)
    requires
        spec_sub_block(toks, p) is Some,
    ensures
        p < after(spec_sub_block(toks, p)),
        green_text(built(spec_sub_block(toks, p))) == stream_text(
            toks,
            p,
            after(spec_sub_block(toks, p)),
        ),
{
    let (q, stmts) = spec_stmts(toks, p + 6)->0;
    lemma_stmts_end(toks, p + 6);
    lemma_stmts_text(toks, p + 6);
    lemma_sub_stmt_text(toks, p);
    let (r, end) = spec_end_sub_stmt(toks, q);
    let head = seq![
        eat_at(toks, q, SyntaxKind::EndKw),
        eat_at(toks, q + 1, SyntaxKind::Space),
        eat_at(toks, q + 2, SyntaxKind::SubKw),
    ];
    lemma_eat_text(toks, q, SyntaxKind::EndKw);
    lemma_eat_text(toks, q + 1, SyntaxKind::Space);
    lemma_eat_text(toks, q + 2, SyntaxKind::SubKw);
    lemma_eat_text(toks, q + 3, SyntaxKind::Eol);
    lemma_text_3(head[0], head[1], head[2]);
    assert(head =~= seq![head[0], head[1], head[2]]);
    lemma_text_push(head, tok_at(toks, q + 3));
    lemma_stream_text_steps(toks, q, 4);
    lemma_stream_text_steps(toks, q, 3);
    lemma_stream_text_steps(toks, q, 2);
    lemma_stream_text_steps(toks, q, 1);
    assert(stream_text(toks, q, q) == Seq::<char>::empty());
    assert(green_text(end) =~= stream_text(toks, q, r));
    lemma_text_3(spec_sub_stmt(toks, p), Green::Node(SyntaxKind::StmtList, stmts), end);
    lemma_stream_text_split(toks, p, p + 6, q);
    lemma_stream_text_split(toks, p, q, r);
    assert(green_text(built(spec_sub_block(toks, p))) =~= stream_text(toks, p, r));
}

proof fn lemma_file_items_text(toks: Seq<(Token, Seq<char>)>, p: int)
    requires
        spec_file_items(toks, p) is Some,
        0 <= p,
    ensures
        p <= after(spec_file_items(toks, p)),
        kind_at(toks, after(spec_file_items(toks, p))) == SyntaxKind::Eof,
        greens_text(built(spec_file_items(toks, p))) == stream_text(
            toks,
            p,
            after(spec_file_items(toks, p)),
        ),
    decreases toks.len() - p,
{
    if kind_at(toks, p) == SyntaxKind::Eof {
        lemma_text_empty();
    } else {
        let (q, gs) = spec_file_item(toks, p)->0;
        let k = kind_at(toks, p);
        if k == SyntaxKind::SubKw {
            lemma_sub_block_text(toks, p);
            lemma_text_1(built(spec_sub_block(toks, p)));
        } else if k == SyntaxKind::Space || k == SyntaxKind::Eol {
            lemma_eat_text(toks, p, k);
            lemma_text_1(tok_at(toks, p));
            lemma_stream_text_one(toks, p);
        } else {
            lemma_eat_text(toks, p, k);
            lemma_text_1(error_at(toks, p));
            lemma_stream_text_one(toks, p);
        }
        if p < q && q < toks.len() {
            lemma_file_items_text(toks, q);
            let (r, rest) = spec_file_items(toks, q)->0;
            lemma_greens_text_concat(gs, rest);
            lemma_stream_text_split(toks, p, q, r);
        }
    }
}

/// The texts of the stream from `p` to its end are the texts of the tokens
/// from `p` on.
proof fn lemma_stream_text_texts(toks: Seq<(Token, Seq<char>)>, p: int)
    requires
        0 <= p <= toks.len(),
    ensures
        stream_text(toks, p, toks.len() as int) == texts(toks.skip(p)),
    decreases toks.len() - p,
{
    if p == toks.len() {
        assert(toks.skip(p) =~= Seq::<(Token, Seq<char>)>::empty());
    } else {
        lemma_stream_text_texts(toks, p + 1);
        lemma_stream_text_split(toks, p, p + 1, toks.len() as int);
        lemma_stream_text_one(toks, p);
        assert(toks.skip(p).drop_first() =~= toks.skip(p + 1));
    }
}

/// Where every token has empty text, so has the stretch.
proof fn lemma_stream_text_blank(toks: Seq<(Token, Seq<char>)>, p: int, q: int)
    requires
        forall|i: int| p <= i < q ==> text_at(toks, i).len() == 0,
    ensures
        stream_text(toks, p, q) == Seq::<char>::empty(),
    decreases q - p,
{
    if q > p {
        lemma_stream_text_blank(toks, p, q - 1);
        assert(text_at(toks, q - 1) =~= Seq::<char>::empty());
        assert(Seq::<char>::empty() + Seq::<char>::empty() =~= Seq::<char>::empty());
    }
}

/// The concrete syntax tree is lossless: wherever the parser gets through
/// the tokens of a source text, the tree's text, its tokens' texts in order,
/// is that source text.
pub proof fn lemma_parse_lossless(source: Seq<char>)
    requires
        spec_parse(crate::syntax::lex::spec_lex(source)) is Some,
    ensures
        green_text(spec_parse(crate::syntax::lex::spec_lex(source))->0) == source,
{
    let toks = crate::syntax::lex::spec_lex(source);
    crate::syntax::lex::lemma_lex_lossless(source);
    crate::syntax::lex::lemma_lex_from_lossless(source, 0);
    lemma_file_items_text(toks, 0);
    let r = after(spec_file_items(toks, 0));
    let n = toks.len() as int;
    // the only `Eof` token is the last one, so the parser stops at or after it
    assert(r >= n - 1) by {
        if r < n - 1 {
            assert(toks[r].0 != Token::Eof);
        }
    }
    lemma_stream_text_texts(toks, 0);
    assert(toks.skip(0) =~= toks);
    if r >= n {
        lemma_stream_text_blank(toks, n, r);
        lemma_stream_text_split(toks, 0, n, r);
    } else {
        lemma_stream_text_blank(toks, n - 1, n);
        lemma_stream_text_split(toks, 0, n - 1, n);
    }
    lemma_text_1(Green::Node(SyntaxKind::BasFile, built(spec_file_items(toks, 0))));
    assert(stream_text(toks, 0, r) + Seq::<char>::empty() =~= stream_text(toks, 0, r));
}

} // verus!
