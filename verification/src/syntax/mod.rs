//! The concrete syntax of the language: the kinds of tokens and nodes, the
//! lexer, the parser and the typed view of the tree.

use vstd::prelude::*;

pub mod lex;
pub mod tree;
pub mod parse;
pub mod ast;

verus! {

/// Every kind of token and of node in the concrete syntax tree.
#[derive(Debug, Clone, Copy, PartialEq, Eq, Structural)]
pub enum SyntaxKind {
    Eof,
    // Tokens
    Space,
    Eol,
    CallKw,
    EndKw,
    SubKw,
    LParen,
    RParen,
    Comma,
    Ident,
    StringLit,
    // Nodes
    Error,
    BasFile,
    SubBlock,
    SubStmt,
    EndSubStmt,
    Name,
    NameRef,
    ParamList,
    Param,
    ImplicitCallStmt,
    ExplicitCallStmt,
    ArgList,
    Arg,
    LiteralExpr,
    BinExpr,
    ModuleItem,
    StmtList,
    Stmt,
}

/// The number of syntax kinds; their compact codes are `0..KIND_COUNT`.
pub const KIND_COUNT: u32 = 29;

/// The compact code of a kind: its position in the declaration of `SyntaxKind`.
pub open spec fn raw_code(kind: SyntaxKind) -> u32 {
    match kind {
        SyntaxKind::Eof => 0,
        SyntaxKind::Space => 1,
        SyntaxKind::Eol => 2,
        SyntaxKind::CallKw => 3,
        SyntaxKind::EndKw => 4,
        SyntaxKind::SubKw => 5,
        SyntaxKind::LParen => 6,
        SyntaxKind::RParen => 7,
        SyntaxKind::Comma => 8,
        SyntaxKind::Ident => 9,
        SyntaxKind::StringLit => 10,
        SyntaxKind::Error => 11,
        SyntaxKind::BasFile => 12,
        SyntaxKind::SubBlock => 13,
        SyntaxKind::SubStmt => 14,
        SyntaxKind::EndSubStmt => 15,
        SyntaxKind::Name => 16,
        SyntaxKind::NameRef => 17,
        SyntaxKind::ParamList => 18,
        SyntaxKind::Param => 19,
        SyntaxKind::ImplicitCallStmt => 20,
        SyntaxKind::ExplicitCallStmt => 21,
        SyntaxKind::ArgList => 22,
        SyntaxKind::Arg => 23,
        SyntaxKind::LiteralExpr => 24,
        SyntaxKind::BinExpr => 25,
        SyntaxKind::ModuleItem => 26,
        SyntaxKind::StmtList => 27,
        SyntaxKind::Stmt => 28,
    }
}

/// The fixed text of the kinds whose tokens always read the same.
pub open spec fn spec_static_text(kind: SyntaxKind) -> Option<Seq<char>> {
    match kind {
        SyntaxKind::LParen => Some(seq!['(']),
        SyntaxKind::RParen => Some(seq![')']),
        SyntaxKind::Comma => Some(seq![',']),
        _ => None,
    }
}

impl SyntaxKind {
    /// The compact code of this kind.
    pub fn into_raw(self) -> (raw: u32)
        ensures
            raw == raw_code(self),
            raw < KIND_COUNT,
    {
        match self {
            SyntaxKind::Eof => 0,
            SyntaxKind::Space => 1,
            SyntaxKind::Eol => 2,
            SyntaxKind::CallKw => 3,
            SyntaxKind::EndKw => 4,
            SyntaxKind::SubKw => 5,
            SyntaxKind::LParen => 6,
            SyntaxKind::RParen => 7,
            SyntaxKind::Comma => 8,
            SyntaxKind::Ident => 9,
            SyntaxKind::StringLit => 10,
            SyntaxKind::Error => 11,
            SyntaxKind::BasFile => 12,
            SyntaxKind::SubBlock => 13,
            SyntaxKind::SubStmt => 14,
            SyntaxKind::EndSubStmt => 15,
            SyntaxKind::Name => 16,
            SyntaxKind::NameRef => 17,
            SyntaxKind::ParamList => 18,
            SyntaxKind::Param => 19,
            SyntaxKind::ImplicitCallStmt => 20,
            SyntaxKind::ExplicitCallStmt => 21,
            SyntaxKind::ArgList => 22,
            SyntaxKind::Arg => 23,
            SyntaxKind::LiteralExpr => 24,
            SyntaxKind::BinExpr => 25,
            SyntaxKind::ModuleItem => 26,
            SyntaxKind::StmtList => 27,
            SyntaxKind::Stmt => 28,
        }
    }

    /// The kind with the given compact code.
    pub fn from_raw(raw: u32) -> (kind: SyntaxKind)
        requires
            raw < KIND_COUNT,
        ensures
            raw_code(kind) == raw,
    {
        match raw {
            0 => SyntaxKind::Eof,
            1 => SyntaxKind::Space,
            2 => SyntaxKind::Eol,
            3 => SyntaxKind::CallKw,
            4 => SyntaxKind::EndKw,
            5 => SyntaxKind::SubKw,
            6 => SyntaxKind::LParen,
            7 => SyntaxKind::RParen,
            8 => SyntaxKind::Comma,
            9 => SyntaxKind::Ident,
            10 => SyntaxKind::StringLit,
            11 => SyntaxKind::Error,
            12 => SyntaxKind::BasFile,
            13 => SyntaxKind::SubBlock,
            14 => SyntaxKind::SubStmt,
            15 => SyntaxKind::EndSubStmt,
            16 => SyntaxKind::Name,
            17 => SyntaxKind::NameRef,
            18 => SyntaxKind::ParamList,
            19 => SyntaxKind::Param,
            20 => SyntaxKind::ImplicitCallStmt,
            21 => SyntaxKind::ExplicitCallStmt,
            22 => SyntaxKind::ArgList,
            23 => SyntaxKind::Arg,
            24 => SyntaxKind::LiteralExpr,
            25 => SyntaxKind::BinExpr,
            26 => SyntaxKind::ModuleItem,
            27 => SyntaxKind::StmtList,
            _ => SyntaxKind::Stmt,
        }
    }

    /// The fixed text of this kind, for the punctuation tokens that always
    /// read the same.
    pub fn static_text(self) -> (text: Option<&'static str>)
        ensures
            match text {
                Some(t) => spec_static_text(self) == Some(t@),
                None => spec_static_text(self) is None,
            },
    {
        proof {
            reveal_strlit("(");
            reveal_strlit(")");
            reveal_strlit(",");
        }
        match self {
            SyntaxKind::LParen => Some("("),
            SyntaxKind::RParen => Some(")"),
            SyntaxKind::Comma => Some(","),
            _ => None,
        }
    }
}

/// Distinct kinds have distinct compact codes, so a code names its kind.
pub proof fn lemma_raw_code_injective(a: SyntaxKind, b: SyntaxKind)
    ensures
        raw_code(a) == raw_code(b) ==> a == b,
        raw_code(a) < KIND_COUNT,
{
}

/// The language in the tree's terms: the kind type under the name that
/// tree code uses for it.
pub type VisualBasic = SyntaxKind;

} // verus!
