//! The lexer: it cuts source text into tokens by longest match, a keyword
//! winning over an identifier of the same length, and reports each stretch
//! that no token matches as one `Unknown` token.

use vstd::prelude::*;
use vstd::string::*;
use vstd::utf8::{decode_utf8, valid_utf8};

use crate::syntax::SyntaxKind;
use crate::ty::types::utf16_encode;

verus! {

broadcast use vstd::string::group_string_axioms;

/// The tokens of the language.
#[derive(Debug, Clone, Copy, PartialEq, Eq, Structural)]
pub enum Token {
    /// One or more spaces.
    Space,
    /// One or more line ends, each `\r\n` or `\n`.
    Eol,
    /// `Call`, in any case.
    CallKw,
    /// `End`, in any case.
    EndKw,
    /// `Sub`, in any case.
    SubKw,
    LParen,
    RParen,
    Comma,
    /// One or more ASCII letters.
    Ident,
    /// A double-quoted string on one line.
    StringLit,
    /// Text that no token matches.
    Unknown,
    /// The end of the input.
    Eof,
}

/// The syntax kind that a token becomes in the tree.
pub open spec fn token_kind(tok: Token) -> SyntaxKind {
    match tok {
        Token::Space => SyntaxKind::Space,
        Token::Eol => SyntaxKind::Eol,
        Token::CallKw => SyntaxKind::CallKw,
        Token::EndKw => SyntaxKind::EndKw,
        Token::SubKw => SyntaxKind::SubKw,
        Token::LParen => SyntaxKind::LParen,
        Token::RParen => SyntaxKind::RParen,
        Token::Comma => SyntaxKind::Comma,
        Token::Ident => SyntaxKind::Ident,
        Token::StringLit => SyntaxKind::StringLit,
        Token::Unknown => SyntaxKind::Error,
        Token::Eof => SyntaxKind::Eof,
    }
}

impl Token {
    /// The syntax kind that this token becomes in the tree: the kind of the
    /// same name, `Error` for `Unknown`.
    pub fn to_syntax_kind(&self) -> (kind: SyntaxKind)
        ensures
            kind == token_kind(*self),
    {
        match self {
            Token::Space => SyntaxKind::Space,
            Token::Eol => SyntaxKind::Eol,
            Token::CallKw => SyntaxKind::CallKw,
            Token::EndKw => SyntaxKind::EndKw,
            Token::SubKw => SyntaxKind::SubKw,
            Token::LParen => SyntaxKind::LParen,
            Token::RParen => SyntaxKind::RParen,
            Token::Comma => SyntaxKind::Comma,
            Token::Ident => SyntaxKind::Ident,
            Token::StringLit => SyntaxKind::StringLit,
            Token::Unknown => SyntaxKind::Error,
            Token::Eof => SyntaxKind::Eof,
        }
    }
}

/// Distinct tokens become distinct syntax kinds, and each becomes a token
/// kind, never a node kind.
pub proof fn lemma_token_kind_injective(a: Token, b: Token)
    ensures
        token_kind(a) == token_kind(b) ==> a == b,
        crate::syntax::raw_code(token_kind(a)) <= crate::syntax::raw_code(SyntaxKind::Error),
        token_kind(a) != SyntaxKind::Error ==> crate::syntax::raw_code(token_kind(a))
            <= crate::syntax::raw_code(SyntaxKind::StringLit),
{
}

// ---------------------------------------------------------------------------
// The token grammar.

pub open spec fn is_ascii_letter(c: char) -> bool {
    ('A' <= c && c <= 'Z') || ('a' <= c && c <= 'z')
}

/// A character that may stand inside a string literal.
pub open spec fn is_string_char(c: char) -> bool {
    c != '"' && c != '\r' && c != '\n'
}

/// The number of ASCII letters that start at `i`.
pub open spec fn letters_run(s: Seq<char>, i: int) -> nat
    decreases s.len() - i,
{
    if 0 <= i < s.len() && is_ascii_letter(s[i]) {
        1 + letters_run(s, i + 1)
    } else {
        0
    }
}

/// The number of spaces that start at `i`.
pub open spec fn spaces_run(s: Seq<char>, i: int) -> nat
    decreases s.len() - i,
{
    if 0 <= i < s.len() && s[i] == ' ' {
        1 + spaces_run(s, i + 1)
    } else {
        0
    }
}

/// The number of characters that may stand in a string literal, from `i`.
pub open spec fn string_chars_run(s: Seq<char>, i: int) -> nat
    decreases s.len() - i,
{
    if 0 <= i < s.len() && is_string_char(s[i]) {
        1 + string_chars_run(s, i + 1)
    } else {
        0
    }
}

/// The length of the longest run of line ends (`\r\n` or `\n`) from `i`.
pub open spec fn eol_run(s: Seq<char>, i: int) -> nat
    decreases s.len() - i,
{
    if 0 <= i < s.len() && s[i] == '\n' {
        1 + eol_run(s, i + 1)
    } else if 0 <= i && i + 1 < s.len() && s[i] == '\r' && s[i + 1] == '\n' {
        2 + eol_run(s, i + 2)
    } else {
        0
    }
}

/// `c` matches the letter `lower` when case is ignored: the letter itself,
/// its upper case form, and for `s` also U+017F LATIN SMALL LETTER LONG S,
/// which Unicode case folding makes equal to `s`.
pub open spec fn folds_to(c: char, lower: char) -> bool {
    c == lower || (c as u32) + 32 == (lower as u32) || (lower == 's' && (c as u32) == 383)
}

/// The keyword `kw` (given in lower case) stands at `i`, case ignored.
pub open spec fn keyword_at(s: Seq<char>, i: int, kw: Seq<char>) -> bool {
    &&& 0 <= i
    &&& i + kw.len() <= s.len()
    &&& forall|j: int| 0 <= j < kw.len() ==> #[trigger] folds_to(s[i + j], kw[j])
}

pub open spec fn kw_call() -> Seq<char> {
    seq!['c', 'a', 'l', 'l']
}

pub open spec fn kw_end() -> Seq<char> {
    seq!['e', 'n', 'd']
}

pub open spec fn kw_sub() -> Seq<char> {
    seq!['s', 'u', 'b']
}

/// The token that starts at `i` (with `i` inside `s`) and its length in
/// characters: the longest match of any token, a keyword winning over an
/// identifier of the same length; where nothing matches, an `Unknown` token
/// that covers the longest stretch that still begins some token (at least
/// one character).
pub open spec fn next_token(s: Seq<char>, i: int) -> (Token, nat) {
    let c = s[i];
    if c == ' ' {
        (Token::Space, spaces_run(s, i))
    } else if eol_run(s, i) > 0 {
        (Token::Eol, eol_run(s, i))
    } else if c == '(' {
        (Token::LParen, 1)
    } else if c == ')' {
        (Token::RParen, 1)
    } else if c == ',' {
        (Token::Comma, 1)
    } else if c == '"' {
        let k = string_chars_run(s, i + 1);
        if i + 1 + k < s.len() && s[i + 1 + k] == '"' {
            (Token::StringLit, k + 2)
        } else {
            (Token::Unknown, k + 1)
        }
    } else if is_ascii_letter(c) {
        let n = letters_run(s, i);
        if n == 4 && keyword_at(s, i, kw_call()) {
            (Token::CallKw, 4)
        } else if n == 3 && keyword_at(s, i, kw_end()) {
            (Token::EndKw, 3)
        } else if n == 3 && keyword_at(s, i, kw_sub()) {
            (Token::SubKw, 3)
        } else {
            (Token::Ident, n)
        }
    } else if (c as u32) == 383 {
        if keyword_at(s, i, kw_sub()) {
            (Token::SubKw, 3)
        } else if i + 1 < s.len() && folds_to(s[i + 1], 'u') {
            (Token::Unknown, 2)
        } else {
            (Token::Unknown, 1)
        }
    } else {
        (Token::Unknown, 1)
    }
}

/// The tokens of `s` from position `i` on, each with its text, ending with
/// `Eof` and empty text.
pub open spec fn lex_from(s: Seq<char>, i: int) -> Seq<(Token, Seq<char>)>
    decreases s.len() - i,
{
    if i < 0 || i >= s.len() {
        seq![(Token::Eof, Seq::<char>::empty())]
    } else {
        let (t, n) = next_token(s, i);
        if n == 0 || i + n > s.len() {
            // never: every token covers at least one character and no more
            // than are left
            seq![(Token::Eof, Seq::<char>::empty())]
        } else {
            seq![(t, s.subrange(i, i + n))] + lex_from(s, i + n)
        }
    }
}

/// The tokens of a whole source text.
pub open spec fn spec_lex(s: Seq<char>) -> Seq<(Token, Seq<char>)> {
    lex_from(s, 0)
}

/// The concatenation of the texts of a sequence of tokens.
pub open spec fn texts(toks: Seq<(Token, Seq<char>)>) -> Seq<char>
    decreases toks.len(),
{
    if toks.len() == 0 {
        Seq::empty()
    } else {
        toks[0].1 + texts(toks.drop_first())
    }
}

// ---------------------------------------------------------------------------
// Facts about the grammar.

proof fn lemma_letters_run_bound(s: Seq<char>, i: int)
    requires
        0 <= i <= s.len(),
    ensures
        i + letters_run(s, i) <= s.len(),
        forall|j: int| i <= j < i + letters_run(s, i) ==> is_ascii_letter(#[trigger] s[j]),
        i + letters_run(s, i) < s.len() ==> !is_ascii_letter(s[i + letters_run(s, i)]),
    decreases s.len() - i,
{
    if i < s.len() && is_ascii_letter(s[i]) {
        lemma_letters_run_bound(s, i + 1);
    }
}

proof fn lemma_spaces_run_bound(s: Seq<char>, i: int)
    requires
        0 <= i <= s.len(),
    ensures
        i + spaces_run(s, i) <= s.len(),
        forall|j: int| i <= j < i + spaces_run(s, i) ==> #[trigger] s[j] == ' ',
        i + spaces_run(s, i) < s.len() ==> s[i + spaces_run(s, i)] != ' ',
    decreases s.len() - i,
{
    if i < s.len() && s[i] == ' ' {
        lemma_spaces_run_bound(s, i + 1);
    }
}

proof fn lemma_string_chars_run_bound(s: Seq<char>, i: int)
    requires
        0 <= i <= s.len(),
    ensures
        i + string_chars_run(s, i) <= s.len(),
        forall|j: int| i <= j < i + string_chars_run(s, i) ==> is_string_char(#[trigger] s[j]),
        i + string_chars_run(s, i) < s.len() ==> !is_string_char(s[i + string_chars_run(s, i)]),
    decreases s.len() - i,
{
    if i < s.len() && is_string_char(s[i]) {
        lemma_string_chars_run_bound(s, i + 1);
    }
}

proof fn lemma_eol_run_bound(s: Seq<char>, i: int)
    requires
        0 <= i <= s.len(),
    ensures
        i + eol_run(s, i) <= s.len(),
    decreases s.len() - i,
{
    if i < s.len() && s[i] == '\n' {
        lemma_eol_run_bound(s, i + 1);
    } else if i + 1 < s.len() && s[i] == '\r' && s[i + 1] == '\n' {
        lemma_eol_run_bound(s, i + 2);
    }
}

/// Every token covers at least one character, and no more than are left.
pub proof fn lemma_next_token_len(s: Seq<char>, i: int)
    requires
        0 <= i < s.len(),
    ensures
        1 <= next_token(s, i).1,
        i + next_token(s, i).1 <= s.len(),
{
    lemma_letters_run_bound(s, i);
    lemma_spaces_run_bound(s, i);
    lemma_string_chars_run_bound(s, i + 1);
    lemma_eol_run_bound(s, i);
}

/// Texts of a concatenation.
pub proof fn lemma_texts_concat(a: Seq<(Token, Seq<char>)>, b: Seq<(Token, Seq<char>)>)
    ensures
        texts(a + b) == texts(a) + texts(b),
    decreases a.len(),
{
    if a.len() == 0 {
        assert(a + b =~= b);
    } else {
        assert((a + b).drop_first() =~= a.drop_first() + b);
        lemma_texts_concat(a.drop_first(), b);
    }
}

/// Lexing loses nothing: the texts of the tokens from `i` on, put together,
/// are the rest of the input; the last token is `Eof` with empty text, and
/// every other token is not `Eof` and has text.
pub proof fn lemma_lex_from_lossless(s: Seq<char>, i: int)
    requires
        0 <= i <= s.len(),
    ensures
        texts(lex_from(s, i)) == s.subrange(i, s.len() as int),
        lex_from(s, i).len() >= 1,
        lex_from(s, i).last() == (Token::Eof, Seq::<char>::empty()),
        forall|k: int|
            0 <= k < lex_from(s, i).len() - 1 ==> (#[trigger] lex_from(s, i)[k]).0 != Token::Eof
                && lex_from(s, i)[k].1.len() > 0,
    decreases s.len() - i,
{
    if i >= s.len() {
        let e = seq![(Token::Eof, Seq::<char>::empty())];
        assert(e.drop_first() =~= Seq::<(Token, Seq<char>)>::empty());
        assert(texts(e.drop_first()) =~= Seq::<char>::empty());
        assert(texts(e) =~= Seq::<char>::empty());
        assert(s.subrange(i, s.len() as int) =~= Seq::<char>::empty());
    } else {
        lemma_next_token_len(s, i);
        let (t, n) = next_token(s, i);
        lemma_lex_from_lossless(s, i + n);
        let head = seq![(t, s.subrange(i, i + n))];
        let rest = lex_from(s, i + n);
        assert(lex_from(s, i) == head + rest);
        lemma_texts_concat(head, rest);
        assert(head.drop_first() =~= Seq::<(Token, Seq<char>)>::empty());
        assert(texts(head.drop_first()) =~= Seq::<char>::empty());
        assert(texts(head) =~= s.subrange(i, i + n));
        assert(s.subrange(i, i + n) + s.subrange(i + n, s.len() as int) =~= s.subrange(
            i,
            s.len() as int,
        ));
        assert(t != Token::Eof);
        assert forall|k: int| 0 <= k < lex_from(s, i).len() - 1 implies (#[trigger] lex_from(
            s,
            i,
        )[k]).0 != Token::Eof && lex_from(s, i)[k].1.len() > 0 by {
            if k > 0 {
                assert(lex_from(s, i)[k] == rest[k - 1]);
            }
        }
    }
}

/// There is at most one token per character, and the final `Eof`.
pub proof fn lemma_lex_from_count(s: Seq<char>, i: int)
    requires
        0 <= i <= s.len(),
    ensures
        lex_from(s, i).len() <= s.len() - i + 1,
    decreases s.len() - i,
{
    if i < s.len() {
        lemma_next_token_len(s, i);
        lemma_lex_from_count(s, i + next_token(s, i).1);
    }
}

/// The whole source is the concatenation of its tokens' texts.
pub proof fn lemma_lex_lossless(s: Seq<char>)
    ensures
        texts(spec_lex(s)) == s,
        spec_lex(s).last() == (Token::Eof, Seq::<char>::empty()),
        spec_lex(s).len() <= s.len() + 1,
{
    lemma_lex_from_count(s, 0);
    lemma_lex_from_lossless(s, 0);
    assert(s.subrange(0, s.len() as int) =~= s);
}

// ---------------------------------------------------------------------------
// What the tokens are.

proof fn lemma_string_chars_upto(s: Seq<char>, m: int, j: int)
    requires
        0 <= m <= j < s.len(),
        s[j] == '"',
        forall|k: int| m <= k < j ==> s[k] != '"' && s[k] != '\r' && s[k] != '\n',
    ensures
        string_chars_run(s, m) == j - m,
    decreases j - m,
{
    if m < j {
        lemma_string_chars_upto(s, m + 1, j);
    }
}

/// A double quote, a stretch of characters none of which is a double quote,
/// a carriage return or a line feed, and a closing double quote make one
/// string literal token, whatever characters the stretch holds.
pub proof fn lemma_string_literal_token(s: Seq<char>, i: int, j: int)
    requires
        0 <= i < j < s.len(),
        s[i] == '"',
        s[j] == '"',
        forall|k: int| i < k < j ==> s[k] != '"' && s[k] != '\r' && s[k] != '\n',
    ensures
        next_token(s, i) == (Token::StringLit, (j - i + 1) as nat),
{
    lemma_string_chars_upto(s, i + 1, j);
}

/// A source text that is one double-quoted string (no double quote, carriage
/// return or line feed inside) lexes as that string literal, then the end.
pub proof fn lemma_lex_string_literal(t: Seq<char>)
    requires
        forall|k: int| 0 <= k < t.len() ==> t[k] != '"' && t[k] != '\r' && t[k] != '\n',
    ensures
        spec_lex(seq!['"'] + t + seq!['"']) == seq![
            (Token::StringLit, seq!['"'] + t + seq!['"']),
            (Token::Eof, Seq::<char>::empty()),
        ],
{
    let s = seq!['"'] + t + seq!['"'];
    let n = s.len() as int;
    assert forall|k: int| 0 < k < n - 1 implies s[k] != '"' && s[k] != '\r' && s[k] != '\n' by {
        assert(s[k] == t[k - 1]);
    }
    lemma_string_literal_token(s, 0, n - 1);
    assert(s.subrange(0, n) =~= s);
    assert(lex_from(s, n) == seq![(Token::Eof, Seq::<char>::empty())]);
    assert(spec_lex(s) =~= seq![(Token::StringLit, s), (Token::Eof, Seq::<char>::empty())]);
}

proof fn lemma_letters_upto(s: Seq<char>, m: int, e: int)
    requires
        0 <= m <= e <= s.len(),
        forall|k: int| m <= k < e ==> ('A' <= s[k] && s[k] <= 'Z') || ('a' <= s[k] && s[k] <= 'z'),
        e < s.len() ==> !(('A' <= s[e] && s[e] <= 'Z') || ('a' <= s[e] && s[e] <= 'z')),
    ensures
        letters_run(s, m) == e - m,
    decreases e - m,
{
    if m < e {
        lemma_letters_upto(s, m + 1, e);
    }
}

/// A run of `n` ASCII letters (`A` to `Z`, `a` to `z`), not followed by
/// another letter, is one identifier token covering the whole run, unless it
/// has the length of a keyword (3 or 4).
pub proof fn lemma_letters_make_one_identifier(s: Seq<char>, i: int, n: int)
    requires
        0 <= i,
        1 <= n,
        i + n <= s.len(),
        n != 3 && n != 4,
        forall|k: int| i <= k < i + n ==> ('A' <= s[k] && s[k] <= 'Z') || ('a' <= s[k] && s[k] <= 'z'),
        i + n < s.len() ==> !(('A' <= s[i + n] && s[i + n] <= 'Z') || ('a' <= s[i + n] && s[i + n] <= 'z')),
    ensures
        letters_run(s, i) == n,
        next_token(s, i) == (Token::Ident, n as nat),
{
    lemma_letters_upto(s, i, i + n);
    assert(('A' <= s[i] && s[i] <= 'Z') || ('a' <= s[i] && s[i] <= 'z'));
}

proof fn lemma_spaces_upto(s: Seq<char>, m: int, e: int)
    requires
        0 <= m <= e <= s.len(),
        forall|k: int| m <= k < e ==> s[k] == ' ',
        e < s.len() ==> s[e] != ' ',
    ensures
        spaces_run(s, m) == e - m,
    decreases e - m,
{
    if m < e {
        lemma_spaces_upto(s, m + 1, e);
    }
}

/// A run of spaces, not followed by another space, is one space token
/// covering the whole run.
pub proof fn lemma_spaces_token(s: Seq<char>, i: int, n: int)
    requires
        0 <= i,
        1 <= n,
        i + n <= s.len(),
        forall|k: int| i <= k < i + n ==> s[k] == ' ',
        i + n < s.len() ==> s[i + n] != ' ',
    ensures
        next_token(s, i) == (Token::Space, n as nat),
{
    lemma_spaces_upto(s, i, i + n);
}

/// A line feed, or a carriage return followed by a line feed, starts a line
/// end token that takes in every line end that follows it.
pub proof fn lemma_line_end_token(s: Seq<char>, i: int)
    requires
        0 <= i < s.len(),
        s[i] == '\n' || (i + 1 < s.len() && s[i] == '\r' && s[i + 1] == '\n'),
    ensures
        next_token(s, i).0 == Token::Eol,
        s[i] == '\n' ==> next_token(s, i).1 == 1 + eol_run(s, i + 1),
        s[i] == '\r' ==> next_token(s, i).1 == 2 + eol_run(s, i + 2),
        (s[i] == '\n' && (i + 1 == s.len() || (s[i + 1] != '\n' && s[i + 1] != '\r')))
            ==> next_token(s, i).1 == 1,
{
    if s[i] == '\n' && (i + 1 == s.len() || (s[i + 1] != '\n' && s[i + 1] != '\r')) {
        assert(eol_run(s, i + 1) == 0);
    }
}

/// `(`, `)` and `,` are tokens of one character each.
pub proof fn lemma_punctuation_tokens(s: Seq<char>, i: int)
    requires
        0 <= i < s.len(),
    ensures
        s[i] == '(' ==> next_token(s, i) == (Token::LParen, 1nat),
        s[i] == ')' ==> next_token(s, i) == (Token::RParen, 1nat),
        s[i] == ',' ==> next_token(s, i) == (Token::Comma, 1nat),
{
}

/// A character that begins no token (not a space, line end, parenthesis,
/// comma, double quote, ASCII letter, or long s) is an unknown token of one
/// character.
pub proof fn lemma_unknown_character(s: Seq<char>, i: int)
    requires
        0 <= i < s.len(),
        s[i] != ' ' && s[i] != '\n' && s[i] != '\r' && s[i] != '(' && s[i] != ')' && s[i] != ','
            && s[i] != '"',
        !(('A' <= s[i] && s[i] <= 'Z') || ('a' <= s[i] && s[i] <= 'z')),
        (s[i] as u32) != 383,
    ensures
        next_token(s, i) == (Token::Unknown, 1nat),
{
}

/// `Sub`, `End` and `Call`, each letter in either case and not followed by
/// another ASCII letter, are keyword tokens.
pub proof fn lemma_keyword_tokens(s: Seq<char>, i: int)
    requires
        0 <= i,
    ensures
        i + 3 <= s.len() && (s[i] == 's' || s[i] == 'S') && (s[i + 1] == 'u' || s[i + 1] == 'U')
            && (s[i + 2] == 'b' || s[i + 2] == 'B') && (i + 3 == s.len() || !(('A' <= s[i + 3]
            && s[i + 3] <= 'Z') || ('a' <= s[i + 3] && s[i + 3] <= 'z'))) ==> next_token(s, i)
            == (Token::SubKw, 3nat),
        i + 3 <= s.len() && (s[i] == 'e' || s[i] == 'E') && (s[i + 1] == 'n' || s[i + 1] == 'N')
            && (s[i + 2] == 'd' || s[i + 2] == 'D') && (i + 3 == s.len() || !(('A' <= s[i + 3]
            && s[i + 3] <= 'Z') || ('a' <= s[i + 3] && s[i + 3] <= 'z'))) ==> next_token(s, i)
            == (Token::EndKw, 3nat),
        i + 4 <= s.len() && (s[i] == 'c' || s[i] == 'C') && (s[i + 1] == 'a' || s[i + 1] == 'A')
            && (s[i + 2] == 'l' || s[i + 2] == 'L') && (s[i + 3] == 'l' || s[i + 3] == 'L') && (i
            + 4 == s.len() || !(('A' <= s[i + 4] && s[i + 4] <= 'Z') || ('a' <= s[i + 4] && s[i
            + 4] <= 'z'))) ==> next_token(s, i) == (Token::CallKw, 4nat),
{
    if i + 3 <= s.len() && (s[i] == 's' || s[i] == 'S') && (s[i + 1] == 'u' || s[i + 1] == 'U')
        && (s[i + 2] == 'b' || s[i + 2] == 'B') && (i + 3 == s.len() || !(('A' <= s[i + 3] && s[i
        + 3] <= 'Z') || ('a' <= s[i + 3] && s[i + 3] <= 'z'))) {
        lemma_letters_upto(s, i, i + 3);
        assert(folds_to(s[i + 0], kw_sub()[0]));
        assert(folds_to(s[i + 1], kw_sub()[1]));
        assert(folds_to(s[i + 2], kw_sub()[2]));
        assert(keyword_at(s, i, kw_sub()));
        assert(!folds_to(s[i + 0], kw_end()[0]));
    }
    if i + 3 <= s.len() && (s[i] == 'e' || s[i] == 'E') && (s[i + 1] == 'n' || s[i + 1] == 'N')
        && (s[i + 2] == 'd' || s[i + 2] == 'D') && (i + 3 == s.len() || !(('A' <= s[i + 3] && s[i
        + 3] <= 'Z') || ('a' <= s[i + 3] && s[i + 3] <= 'z'))) {
        lemma_letters_upto(s, i, i + 3);
        assert(folds_to(s[i + 0], kw_end()[0]));
        assert(folds_to(s[i + 1], kw_end()[1]));
        assert(folds_to(s[i + 2], kw_end()[2]));
        assert(keyword_at(s, i, kw_end()));
    }
    if i + 4 <= s.len() && (s[i] == 'c' || s[i] == 'C') && (s[i + 1] == 'a' || s[i + 1] == 'A')
        && (s[i + 2] == 'l' || s[i + 2] == 'L') && (s[i + 3] == 'l' || s[i + 3] == 'L') && (i + 4
        == s.len() || !(('A' <= s[i + 4] && s[i + 4] <= 'Z') || ('a' <= s[i + 4] && s[i + 4]
        <= 'z'))) {
        lemma_letters_upto(s, i, i + 4);
        assert(folds_to(s[i + 0], kw_call()[0]));
        assert(folds_to(s[i + 1], kw_call()[1]));
        assert(folds_to(s[i + 2], kw_call()[2]));
        assert(folds_to(s[i + 3], kw_call()[3]));
        assert(keyword_at(s, i, kw_call()));
    }
}

/// A source text of ASCII letters only, of a length no keyword has, lexes as
/// one identifier, then the end.
pub proof fn lemma_lex_identifier(s: Seq<char>)
    requires
        1 <= s.len(),
        s.len() != 3 && s.len() != 4,
        forall|k: int| 0 <= k < s.len() ==> ('A' <= s[k] && s[k] <= 'Z') || ('a' <= s[k] && s[k] <= 'z'),
    ensures
        spec_lex(s) == seq![(Token::Ident, s), (Token::Eof, Seq::<char>::empty())],
{
    let n = s.len() as int;
    lemma_letters_make_one_identifier(s, 0, n);
    assert(s.subrange(0, n) =~= s);
    assert(lex_from(s, n) == seq![(Token::Eof, Seq::<char>::empty())]);
    assert(spec_lex(s) =~= seq![(Token::Ident, s), (Token::Eof, Seq::<char>::empty())]);
}

// ---------------------------------------------------------------------------
// The executable lexer.

/// A lexer over a source text: it hands out the tokens of `spec_lex`, one
/// per call of `next`, the last being `Eof`, and then nothing.
pub struct Lexer<'a> {
    source: &'a str,
    chars: Vec<char>,
    pos: usize,
    finished: bool,
}

impl<'a> Lexer<'a> {
    /// The lexer's internal consistency: its characters are the source's and
    /// its position lies within them.
    pub closed spec fn wf(&self) -> bool {
        &&& self.chars@ == self.source@
        &&& self.pos <= self.chars@.len()
    }

    /// The tokens that this lexer has still to hand out.
    pub closed spec fn remaining(&self) -> Seq<(Token, Seq<char>)> {
        if self.finished {
            Seq::empty()
        } else {
            lex_from(self.chars@, self.pos as int)
        }
    }

    /// The source text.
    pub closed spec fn source_text(&self) -> Seq<char> {
        self.source@
    }

    /// The next token and its text, or `None` once `Eof` has been handed out.
    pub fn next(&mut self) -> (item: Option<(Token, &'a str)>)
        requires
            old(self).wf(),
        ensures
            final(self).wf(),
            final(self).source_text() == old(self).source_text(),
            old(self).remaining().len() == 0 ==> item is None && final(self).remaining().len()
                == 0,
            old(self).remaining().len() > 0 ==> {
                &&& item matches Some((tok, text))
                &&& tok == old(self).remaining()[0].0
                &&& text@ == old(self).remaining()[0].1
                &&& final(self).remaining() == old(self).remaining().drop_first()
            },
    {
        proof {
            if !self.finished {
                lemma_lex_from_lossless(self.chars@, self.pos as int);
            }
        }
        if self.finished {
            return None;
        }
        let len = self.chars.len();
        if self.pos >= len {
            self.finished = true;
            proof {
                reveal_strlit("");
            }
            return Some((Token::Eof, ""));
        }
        let (tok, n) = next_token_at(&self.chars, self.pos);
        let start = self.pos;
        proof {
            lemma_next_token_len(self.chars@, start as int);
        }
        self.pos = start + n;
        let text = self.source.substring_char(start, start + n);
        proof {
            let s = self.chars@;
            let rest = lex_from(s, (start + n) as int);
            assert(lex_from(s, start as int) == seq![(tok, s.subrange(start as int, start + n))]
                + rest);
            assert(lex_from(s, start as int).drop_first() =~= rest);
        }
        Some((tok, text))
    }
}

/// A lexer for `source`, positioned at its start.
pub fn lex_str<'a>(source: &'a str) -> (lexer: Lexer<'a>)
    ensures
        lexer.wf(),
        lexer.source_text() == source@,
        lexer.remaining() == spec_lex(source@),
{
    let chars = chars_of(source);
    Lexer { source, chars, pos: 0, finished: false }
}

/// The characters of `s`, in a vector.
fn chars_of(s: &str) -> (chars: Vec<char>)
    ensures
        chars@ == s@,
{
    let mut chars: Vec<char> = Vec::new();
    for c in it: s.chars()
        invariant
            it.seq() == s@,
            chars@ == it.seq().take(it.index() as int),
    {
        chars.push(c);
    }
    assert(chars@ =~= s@);
    chars
}

// ---------------------------------------------------------------------------
// Executable pieces of the grammar.

fn is_letter(c: char) -> (b: bool)
    ensures
        b == is_ascii_letter(c),
{
    ('A' <= c && c <= 'Z') || ('a' <= c && c <= 'z')
}

fn folds(c: char, lower: char) -> (b: bool)
    requires
        'a' <= lower <= 'z',
    ensures
        b == folds_to(c, lower),
{
    c == lower || (c as u32) + 32 == (lower as u32) || (lower == 's' && (c as u32) == 383)
}

fn letters_from(chars: &Vec<char>, i: usize) -> (n: usize)
    requires
        i <= chars@.len(),
    ensures
        n == letters_run(chars@, i as int),
{
    let mut j = i;
    proof {
        lemma_letters_run_bound(chars@, i as int);
    }
    while j < chars.len() && is_letter(chars[j])
        invariant
            i <= j <= chars@.len(),
            letters_run(chars@, i as int) == (j - i) + letters_run(chars@, j as int),
        decreases chars@.len() - j,
    {
        j = j + 1;
    }
    j - i
}

fn spaces_from(chars: &Vec<char>, i: usize) -> (n: usize)
    requires
        i <= chars@.len(),
    ensures
        n == spaces_run(chars@, i as int),
{
    let mut j = i;
    while j < chars.len() && chars[j] == ' '
        invariant
            i <= j <= chars@.len(),
            spaces_run(chars@, i as int) == (j - i) + spaces_run(chars@, j as int),
        decreases chars@.len() - j,
    {
        j = j + 1;
    }
    j - i
}

fn string_chars_from(chars: &Vec<char>, i: usize) -> (n: usize)
    requires
        i <= chars@.len(),
    ensures
        n == string_chars_run(chars@, i as int),
{
    let mut j = i;
    while j < chars.len() && chars[j] != '"' && chars[j] != '\r' && chars[j] != '\n'
        invariant
            i <= j <= chars@.len(),
            string_chars_run(chars@, i as int) == (j - i) + string_chars_run(chars@, j as int),
        decreases chars@.len() - j,
    {
        j = j + 1;
    }
    j - i
}

fn eol_from(chars: &Vec<char>, i: usize) -> (n: usize)
    requires
        i <= chars@.len(),
    ensures
        n == eol_run(chars@, i as int),
{
    let mut j = i;
    let len = chars.len();
    while j < len
        invariant
            i <= j <= len,
            len == chars@.len(),
            eol_run(chars@, i as int) == (j - i) + eol_run(chars@, j as int),
        ensures
            i <= j <= len,
            eol_run(chars@, i as int) == (j - i) + eol_run(chars@, j as int),
            eol_run(chars@, j as int) == 0,
        decreases len - j,
    {
        if chars[j] == '\n' {
            j = j + 1;
        } else if j + 1 < len && chars[j] == '\r' && chars[j + 1] == '\n' {
            j = j + 2;
        } else {
            break;
        }
    }
    j - i
}

fn keyword_at_exec(chars: &Vec<char>, i: usize, kw: &[char]) -> (b: bool)
    requires
        i <= chars@.len(),
        forall|j: int| 0 <= j < kw@.len() ==> 'a' <= #[trigger] kw@[j] <= 'z',
    ensures
        b == keyword_at(chars@, i as int, kw@),
{
    if kw.len() > chars.len() - i {
        return false;
    }
    let len = chars.len();
    let mut j: usize = 0;
    while j < kw.len()
        invariant
            j <= kw@.len(),
            i <= chars@.len(),
            len == chars@.len(),
            i + kw@.len() <= chars@.len(),
            forall|j: int| 0 <= j < kw@.len() ==> 'a' <= #[trigger] kw@[j] <= 'z',
            forall|k: int| 0 <= k < j ==> #[trigger] folds_to(chars@[i + k], kw@[k]),
        decreases kw@.len() - j,
    {
        let idx = i + j;
        if !folds(chars[idx], kw[j]) {
            return false;
        }
        j = j + 1;
    }
    true
}

/// The token that starts at `i` and its length (`next_token`).
fn next_token_at(chars: &Vec<char>, i: usize) -> (r: (Token, usize))
    requires
        i < chars@.len(),
    ensures
        (r.0, r.1 as nat) == next_token(chars@, i as int),
{
    let len = chars.len();
    let c = chars[i];
    let call: [char; 4] = ['c', 'a', 'l', 'l'];
    let end: [char; 3] = ['e', 'n', 'd'];
    let sub: [char; 3] = ['s', 'u', 'b'];
    assert(call@ == kw_call());
    assert(end@ == kw_end());
    assert(sub@ == kw_sub());
    if c == ' ' {
        (Token::Space, spaces_from(chars, i))
    } else {
        let e = eol_from(chars, i);
        if e > 0 {
            (Token::Eol, e)
        } else if c == '(' {
            (Token::LParen, 1)
        } else if c == ')' {
            (Token::RParen, 1)
        } else if c == ',' {
            (Token::Comma, 1)
        } else if c == '"' {
            let k = string_chars_from(chars, i + 1);
            proof {
                lemma_string_chars_run_bound(chars@, i + 1);
            }
            if i + 1 + k < len && chars[i + 1 + k] == '"' {
                (Token::StringLit, k + 2)
            } else {
                (Token::Unknown, k + 1)
            }
        } else if is_letter(c) {
            let n = letters_from(chars, i);
            if n == 4 && keyword_at_exec(chars, i, &call) {
                (Token::CallKw, 4)
            } else if n == 3 && keyword_at_exec(chars, i, &end) {
                (Token::EndKw, 3)
            } else if n == 3 && keyword_at_exec(chars, i, &sub) {
                (Token::SubKw, 3)
            } else {
                (Token::Ident, n)
            }
        } else if (c as u32) == 383 {
            if keyword_at_exec(chars, i, &sub) {
                (Token::SubKw, 3)
            } else if i + 1 < chars.len() && folds(chars[i + 1], 'u') {
                (Token::Unknown, 2)
            } else {
                (Token::Unknown, 1)
            }
        } else {
            (Token::Unknown, 1)
        }
    }
}


// ---------------------------------------------------------------------------
// Decoding source files.

/// The code points of the Windows-1252 bytes 128 to 159, as the WHATWG index
/// gives them (bytes without a character of their own keep their value).
pub open spec fn windows_1252_high() -> Seq<u32> {
    seq![8364u32, 129u32, 8218u32, 402u32, 8222u32, 8230u32, 8224u32, 8225u32, 710u32, 8240u32, 352u32, 8249u32, 338u32, 141u32, 381u32, 143u32, 144u32, 8216u32, 8217u32, 8220u32, 8221u32, 8226u32, 8211u32, 8212u32, 732u32, 8482u32, 353u32, 8250u32, 339u32, 157u32, 382u32, 376u32]
}

/// The code point that a Windows-1252 byte stands for: the bytes outside
/// 128..160 stand for the code point of the same value.
pub open spec fn windows_1252_code(b: u8) -> u32 {
    if 128 <= b < 160 {
        windows_1252_high()[b - 128]
    } else {
        b as u32
    }
}

/// The bytes begin with a byte order mark (UTF-8, UTF-16LE or UTF-16BE).
pub open spec fn has_bom(bytes: Seq<u8>) -> bool {
    ||| (bytes.len() >= 3 && bytes[0] == 239 && bytes[1] == 187 && bytes[2] == 191)
    ||| (bytes.len() >= 2 && bytes[0] == 255 && bytes[1] == 254)
    ||| (bytes.len() >= 2 && bytes[0] == 254 && bytes[1] == 255)
}

/// The bytes of UTF-16 code units, each unit's low byte first where
/// `little_endian`, else its high byte first.
pub open spec fn utf16_bytes(units: Seq<u16>, little_endian: bool) -> Seq<u8>
    decreases units.len(),
{
    if units.len() == 0 {
        Seq::empty()
    } else {
        let lo = (units[0] % 256) as u8;
        let hi = (units[0] / 256) as u8;
        (if little_endian {
            seq![lo, hi]
        } else {
            seq![hi, lo]
        }) + utf16_bytes(units.drop_first(), little_endian)
    }
}

/// A text in UTF-16 (little- or big-endian) behind its byte order mark
/// (`FF FE` or `FE FF`).
pub open spec fn utf16_file(t: Seq<char>, little_endian: bool) -> Seq<u8> {
    (if little_endian {
        seq![255u8, 254u8]
    } else {
        seq![254u8, 255u8]
    }) + utf16_bytes(utf16_encode(t), little_endian)
}

/// The text that `encoding_rs::WINDOWS_1252.decode` makes of `bytes`, a byte
/// order mark switching it to that mark's encoding.
pub uninterp spec fn windows_1252_decode(bytes: Seq<u8>) -> Seq<char>;

/// Calls `encoding_rs::Encoding::decode` on `encoding_rs::WINDOWS_1252`. Its
/// result depends on the bytes alone and is named by `windows_1252_decode`;
/// without a byte order mark every byte becomes the character of the
/// Windows-1252 index (encoding_rs's single-byte decoder maps each byte through
/// that table, and every byte has an entry). A UTF-16 byte order mark
/// switches it to UTF-16 of that byte order for the rest of the bytes
/// (`Encoding::for_bom`, then `decode_without_bom_handling`), so well-formed
/// UTF-16 behind its mark gives back its text. What it makes of malformed
/// UTF-16, or of input behind a UTF-8 byte order mark, is not stated.
/// Inputs so long that encoding_rs's buffer size
/// computation (three bytes out per byte in) would overflow, where it panics,
/// are left out.
#[verifier::external_body]
fn decode_windows_1252(bytes: &[u8]) -> (text: String)
    requires
        bytes@.len() <= usize::MAX / 4,
    ensures
        text@ == windows_1252_decode(bytes@),
        !has_bom(bytes@) ==> text@ == bytes@.map_values(|b: u8| windows_1252_code(b) as char),
        forall|t: Seq<char>, le: bool| #[trigger] utf16_file(t, le) == bytes@ ==> text@ == t,
{
    let (text, _, _) = encoding_rs::WINDOWS_1252.decode(bytes);
    text.into_owned()
}

/// Calls `String::from_utf8`: the bytes decoded when they are valid UTF-8,
/// else the bytes handed back (`FromUtf8Error::into_bytes`).
#[verifier::external_body]
fn string_from_utf8(bytes: Vec<u8>) -> (r: Result<String, Vec<u8>>)
    ensures
        r is Ok <==> valid_utf8(bytes@),
        r is Ok ==> r->Ok_0@ == decode_utf8(bytes@),
        r is Err ==> r->Err_0@ == bytes@,
{
    match String::from_utf8(bytes) {
        Ok(s) => Ok(s),
        Err(e) => Err(e.into_bytes()),
    }
}

/// Bytes that start with `FF` or `FE` are not UTF-8: neither byte begins a
/// UTF-8 sequence.
proof fn lemma_bom_not_utf8(bytes: Seq<u8>)
    requires
        bytes.len() >= 1,
        bytes[0] == 255u8 || bytes[0] == 254u8,
    ensures
        !valid_utf8(bytes),
{
}

/// The text of a source file's bytes: UTF-8 where they are valid UTF-8,
/// else Windows-1252, where a UTF-16 byte order mark switches to UTF-16.
pub fn decode_source(bytes: Vec<u8>) -> (text: String)
    requires
        bytes@.len() <= usize::MAX / 4,
    ensures
        valid_utf8(bytes@) ==> text@ == decode_utf8(bytes@),
        !valid_utf8(bytes@) ==> text@ == windows_1252_decode(bytes@),
        !valid_utf8(bytes@) && !has_bom(bytes@) ==> text@ == bytes@.map_values(
            |b: u8| windows_1252_code(b) as char,
        ),
        forall|t: Seq<char>, le: bool| #[trigger] utf16_file(t, le) == bytes@ ==> text@ == t,
{
    proof {
        assert forall|t: Seq<char>, le: bool| #[trigger] utf16_file(t, le) == bytes@ implies !valid_utf8(
            bytes@,
        ) by {
            lemma_bom_not_utf8(bytes@);
        }
    }
    match string_from_utf8(bytes) {
        Ok(text) => text,
        Err(bytes) => decode_windows_1252(bytes.as_slice()),
    }
}

} // verus!
