//! Lowering of the syntax tree. The lowered form holds nothing yet; lowering
//! walks every `Sub` block and insists that each piece it reads is there.

use vstd::prelude::*;

use crate::syntax::ast;
use crate::syntax::tree::{
    find_node, find_node_of, find_token, green_children, green_kind, greens_of, lemma_greens_len,
    Green, SyntaxElement, SyntaxNode,
};
use crate::syntax::SyntaxKind;

verus! {

/// The lowered form of a source file.
pub struct BasFile {}

// ---------------------------------------------------------------------------
// What lowering reads: each piece it unwraps must be there.

/// The element has a child token of kind `k`.
pub open spec fn has_token(g: Green, k: SyntaxKind) -> bool {
    find_token(green_children(g), k) is Some
}

/// The element has a child node of kind `k` (a `Name` or a `NameRef`) that
/// holds an identifier.
pub open spec fn has_named(g: Green, k: SyntaxKind) -> bool {
    match find_node(green_children(g), k) {
        Some(n) => has_token(n, SyntaxKind::Ident),
        None => false,
    }
}

/// An argument whose expression is a string literal: the only expression
/// that lowering handles (a binary expression is not done yet).
pub open spec fn arg_ok(arg: Green) -> bool {
    match find_node_of(green_children(arg), SyntaxKind::LiteralExpr, SyntaxKind::BinExpr) {
        Some(e) => green_kind(e) == SyntaxKind::LiteralExpr && has_token(e, SyntaxKind::StringLit),
        None => false,
    }
}

/// A node child of kind `k`.
pub open spec fn is_node_of(g: Green, k: SyntaxKind) -> bool {
    g is Node && green_kind(g) == k
}

/// A call with an argument list whose arguments are all fine.
pub open spec fn args_ok(call: Green) -> bool {
    match find_node(green_children(call), SyntaxKind::ArgList) {
        Some(list) => forall|i: int|
            0 <= i < green_children(list).len() && is_node_of(
                #[trigger] green_children(list)[i],
                SyntaxKind::Arg,
            ) ==> arg_ok(green_children(list)[i]),
        None => false,
    }
}

/// A statement node: an implicit or an explicit call.
pub open spec fn is_stmt(g: Green) -> bool {
    is_node_of(g, SyntaxKind::ImplicitCallStmt) || is_node_of(g, SyntaxKind::ExplicitCallStmt)
}

/// A statement that lowering gets through: a called name and arguments, and
/// for an explicit call its parentheses.
pub open spec fn stmt_ok(s: Green) -> bool {
    if green_kind(s) == SyntaxKind::ImplicitCallStmt {
        has_named(s, SyntaxKind::NameRef) && args_ok(s)
    } else {
        &&& has_named(s, SyntaxKind::NameRef)
        &&& has_token(s, SyntaxKind::LParen)
        &&& has_token(s, SyntaxKind::RParen)
        &&& args_ok(s)
    }
}

/// A `Sub` block that lowering gets through: a header with a name, a
/// statement list whose statements are fine, and `End Sub` ended by a line
/// end or by the end of the input.
pub open spec fn sub_block_ok(sub: Green) -> bool {
    &&& match find_node(green_children(sub), SyntaxKind::SubStmt) {
        Some(header) => has_named(header, SyntaxKind::Name),
        None => false,
    }
    &&& match find_node(green_children(sub), SyntaxKind::StmtList) {
        Some(list) => forall|i: int|
            0 <= i < green_children(list).len() && is_stmt(#[trigger] green_children(list)[i])
                ==> stmt_ok(green_children(list)[i]),
        None => false,
    }
    &&& match find_node(green_children(sub), SyntaxKind::EndSubStmt) {
        Some(end) => has_token(end, SyntaxKind::EndKw) && has_token(end, SyntaxKind::SubKw)
            && (has_token(end, SyntaxKind::Eol) || has_token(end, SyntaxKind::Eof)),
        None => false,
    }
}

/// A file that lowering gets through: all its `Sub` blocks are fine.
pub open spec fn lowerable(file: Green) -> bool {
    forall|i: int|
        0 <= i < green_children(file).len() && is_node_of(
            #[trigger] green_children(file)[i],
            SyntaxKind::SubBlock,
        ) ==> sub_block_ok(green_children(file)[i])
}

// ---------------------------------------------------------------------------
// Lowering.

fn lower_arg(arg: &SyntaxNode)
    requires
        arg_ok(arg@),
{
    let expr = arg.child_node_of(SyntaxKind::LiteralExpr, SyntaxKind::BinExpr).unwrap();
    match expr.kind {
        SyntaxKind::LiteralExpr => {
            let str_lit = expr.child_token(SyntaxKind::StringLit).unwrap();
            let _str_lit = str_lit.text.as_str();
        },
        _ => {
            // a binary expression: not lowered yet, and ruled out above
            proof {
                assert(false);
            }
        },
    }
}

fn lower_args(call: &SyntaxNode)
    requires
        args_ok(call@),
{
    let args = call.child_node(SyntaxKind::ArgList).unwrap();
    proof {
        lemma_greens_len(args.children@);
    }
    let mut i: usize = 0;
    while i < args.children.len()
        invariant
            i <= args.children@.len(),
            greens_of(args.children@).len() == args.children@.len(),
            forall|j: int|
                0 <= j < args.children@.len() ==> #[trigger] greens_of(args.children@)[j]
                    == crate::syntax::tree::green_of(args.children@[j]),
            forall|j: int|
                0 <= j < green_children(args@).len() && is_node_of(
                    #[trigger] green_children(args@)[j],
                    SyntaxKind::Arg,
                ) ==> arg_ok(green_children(args@)[j]),
        decreases args.children@.len() - i,
    {
        match &args.children[i] {
            SyntaxElement::Node(arg) => {
                if arg.kind == SyntaxKind::Arg {
                    assert(green_children(args@)[i as int] == arg@);
                    lower_arg(arg);
                }
            },
            SyntaxElement::Token(_) => {},
        }
        i = i + 1;
    }
}

fn lower_stmt(stmt: &SyntaxNode)
    requires
        is_stmt(stmt@),
        stmt_ok(stmt@),
{
    if stmt.kind == SyntaxKind::ImplicitCallStmt {
        let name_ref = stmt.child_node(SyntaxKind::NameRef).unwrap();
        let _ident = name_ref.child_token(SyntaxKind::Ident).unwrap().text.as_str();
        lower_args(stmt);
    } else {
        let name_ref = stmt.child_node(SyntaxKind::NameRef).unwrap();
        let _ident = name_ref.child_token(SyntaxKind::Ident).unwrap().text.as_str();
        let _l_paren = stmt.child_token(SyntaxKind::LParen).unwrap().text.as_str();
        let _r_paren = stmt.child_token(SyntaxKind::RParen).unwrap().text.as_str();
        lower_args(stmt);
    }
}

fn lower_sub_block(sub: &SyntaxNode)
    requires
        sub_block_ok(sub@),
{
    let start = sub.child_node(SyntaxKind::SubStmt).unwrap();
    let name = start.child_node(SyntaxKind::Name).unwrap();
    let _name = name.child_token(SyntaxKind::Ident).unwrap().text.as_str();
    let stmts = sub.child_node(SyntaxKind::StmtList).unwrap();
    proof {
        lemma_greens_len(stmts.children@);
    }
    let mut i: usize = 0;
    while i < stmts.children.len()
        invariant
            i <= stmts.children@.len(),
            greens_of(stmts.children@).len() == stmts.children@.len(),
            forall|j: int|
                0 <= j < stmts.children@.len() ==> #[trigger] greens_of(stmts.children@)[j]
                    == crate::syntax::tree::green_of(stmts.children@[j]),
            forall|j: int|
                0 <= j < green_children(stmts@).len() && is_stmt(
                    #[trigger] green_children(stmts@)[j],
                ) ==> stmt_ok(green_children(stmts@)[j]),
        decreases stmts.children@.len() - i,
    {
        match &stmts.children[i] {
            SyntaxElement::Node(stmt) => {
                if stmt.kind == SyntaxKind::ImplicitCallStmt || stmt.kind
                    == SyntaxKind::ExplicitCallStmt {
                    assert(green_children(stmts@)[i as int] == stmt@);
                    lower_stmt(stmt);
                }
            },
            SyntaxElement::Token(_) => {},
        }
        i = i + 1;
    }
    let end = sub.child_node(SyntaxKind::EndSubStmt).unwrap();
    let _ = end.child_token(SyntaxKind::EndKw).unwrap();
    let _ = end.child_token(SyntaxKind::SubKw).unwrap();
    // a line end, or the end of the input where the file ends with `End Sub`
    let _ = match end.child_token(SyntaxKind::Eol) {
        Some(eol) => eol,
        None => end.child_token(SyntaxKind::Eof).unwrap(),
    };
}

/// Lowers a parsed file. Lowering reads every `Sub` block, its name, its
/// statements with their called names and literal arguments, and its
/// `End Sub`; where one of these is missing lowering cannot go on, so the file
/// must be `lowerable` (`is_lowerable` tells).
pub fn lower(ast: &ast::BasFile) -> (lowered: BasFile)
    requires
        lowerable(ast@),
    ensures
        lowered == (BasFile {}),
{
    let file = ast.syntax();
    proof {
        lemma_greens_len(file.children@);
    }
    let mut i: usize = 0;
    while i < file.children.len()
        invariant
            i <= file.children@.len(),
            greens_of(file.children@).len() == file.children@.len(),
            forall|j: int|
                0 <= j < file.children@.len() ==> #[trigger] greens_of(file.children@)[j]
                    == crate::syntax::tree::green_of(file.children@[j]),
            lowerable(file@),
        decreases file.children@.len() - i,
    {
        match &file.children[i] {
            SyntaxElement::Node(sub) => {
                if sub.kind == SyntaxKind::SubBlock {
                    assert(green_children(file@)[i as int] == sub@);
                    lower_sub_block(sub);
                }
            },
            SyntaxElement::Token(_) => {},
        }
        i = i + 1;
    }
    BasFile {}
}


// ---------------------------------------------------------------------------
// Telling in advance whether lowering gets through.

fn has_token_exec(node: &SyntaxNode, k: SyntaxKind) -> (b: bool)
    ensures
        b == has_token(node@, k),
{
    node.child_token(k).is_some()
}

fn has_named_exec(node: &SyntaxNode, k: SyntaxKind) -> (b: bool)
    ensures
        b == has_named(node@, k),
{
    match node.child_node(k) {
        Some(n) => has_token_exec(n, SyntaxKind::Ident),
        None => false,
    }
}

fn arg_ok_exec(arg: &SyntaxNode) -> (b: bool)
    ensures
        b == arg_ok(arg@),
{
    match arg.child_node_of(SyntaxKind::LiteralExpr, SyntaxKind::BinExpr) {
        Some(e) => e.kind == SyntaxKind::LiteralExpr && has_token_exec(e, SyntaxKind::StringLit),
        None => false,
    }
}

fn args_ok_exec(call: &SyntaxNode) -> (b: bool)
    ensures
        b == args_ok(call@),
{
    let args = match call.child_node(SyntaxKind::ArgList) {
        Some(a) => a,
        None => {
            return false;
        },
    };
    proof {
        lemma_greens_len(args.children@);
    }
    let mut i: usize = 0;
    while i < args.children.len()
        invariant
            i <= args.children@.len(),
            find_node(green_children(call@), SyntaxKind::ArgList) == Some(args@),
            greens_of(args.children@).len() == args.children@.len(),
            forall|j: int|
                0 <= j < args.children@.len() ==> #[trigger] greens_of(args.children@)[j]
                    == crate::syntax::tree::green_of(args.children@[j]),
            forall|j: int|
                0 <= j < i && is_node_of(#[trigger] green_children(args@)[j], SyntaxKind::Arg)
                    ==> arg_ok(green_children(args@)[j]),
        decreases args.children@.len() - i,
    {
        match &args.children[i] {
            SyntaxElement::Node(arg) => {
                if arg.kind == SyntaxKind::Arg {
                    assert(green_children(args@)[i as int] == arg@);
                    if !arg_ok_exec(arg) {
                        return false;
                    }
                }
            },
            SyntaxElement::Token(_) => {},
        }
        i = i + 1;
    }
    true
}

fn stmt_ok_exec(stmt: &SyntaxNode) -> (b: bool)
    ensures
        b == stmt_ok(stmt@),
{
    if stmt.kind == SyntaxKind::ImplicitCallStmt {
        has_named_exec(stmt, SyntaxKind::NameRef) && args_ok_exec(stmt)
    } else {
        has_named_exec(stmt, SyntaxKind::NameRef) && has_token_exec(stmt, SyntaxKind::LParen)
            && has_token_exec(stmt, SyntaxKind::RParen) && args_ok_exec(stmt)
    }
}

fn sub_block_ok_exec(sub: &SyntaxNode) -> (b: bool)
    ensures
        b == sub_block_ok(sub@),
{
    let header_ok = match sub.child_node(SyntaxKind::SubStmt) {
        Some(header) => has_named_exec(header, SyntaxKind::Name),
        None => false,
    };
    let end_ok = match sub.child_node(SyntaxKind::EndSubStmt) {
        Some(end) => has_token_exec(end, SyntaxKind::EndKw) && has_token_exec(
            end,
            SyntaxKind::SubKw,
        ) && (has_token_exec(end, SyntaxKind::Eol) || has_token_exec(end, SyntaxKind::Eof)),
        None => false,
    };
    let stmts = match sub.child_node(SyntaxKind::StmtList) {
        Some(list) => list,
        None => {
            return false;
        },
    };
    if !header_ok || !end_ok {
        return false;
    }
    proof {
        lemma_greens_len(stmts.children@);
    }
    let mut i: usize = 0;
    while i < stmts.children.len()
        invariant
            i <= stmts.children@.len(),
            find_node(green_children(sub@), SyntaxKind::StmtList) == Some(stmts@),
            header_ok == match find_node(green_children(sub@), SyntaxKind::SubStmt) {
                Some(header) => has_named(header, SyntaxKind::Name),
                None => false,
            },
            header_ok,
            end_ok,
            end_ok == match find_node(green_children(sub@), SyntaxKind::EndSubStmt) {
                Some(end) => has_token(end, SyntaxKind::EndKw) && has_token(end, SyntaxKind::SubKw)
                    && (has_token(end, SyntaxKind::Eol) || has_token(end, SyntaxKind::Eof)),
                None => false,
            },
            greens_of(stmts.children@).len() == stmts.children@.len(),
            forall|j: int|
                0 <= j < stmts.children@.len() ==> #[trigger] greens_of(stmts.children@)[j]
                    == crate::syntax::tree::green_of(stmts.children@[j]),
            forall|j: int|
                0 <= j < i && is_stmt(#[trigger] green_children(stmts@)[j]) ==> stmt_ok(
                    green_children(stmts@)[j],
                ),
        decreases stmts.children@.len() - i,
    {
        match &stmts.children[i] {
            SyntaxElement::Node(stmt) => {
                if stmt.kind == SyntaxKind::ImplicitCallStmt || stmt.kind
                    == SyntaxKind::ExplicitCallStmt {
                    assert(green_children(stmts@)[i as int] == stmt@);
                    if !stmt_ok_exec(stmt) {
                        return false;
                    }
                }
            },
            SyntaxElement::Token(_) => {},
        }
        i = i + 1;
    }
    true
}

/// Whether `lower` gets through the file: whether it is `lowerable`.
pub fn is_lowerable(ast: &ast::BasFile) -> (b: bool)
    ensures
        b == lowerable(ast@),
{
    let file = ast.syntax();
    proof {
        lemma_greens_len(file.children@);
    }
    let mut i: usize = 0;
    while i < file.children.len()
        invariant
            i <= file.children@.len(),
            greens_of(file.children@).len() == file.children@.len(),
            forall|j: int|
                0 <= j < file.children@.len() ==> #[trigger] greens_of(file.children@)[j]
                    == crate::syntax::tree::green_of(file.children@[j]),
            ast@ == file@,
            forall|j: int|
                0 <= j < i && is_node_of(#[trigger] green_children(file@)[j], SyntaxKind::SubBlock)
                    ==> sub_block_ok(green_children(file@)[j]),
        decreases file.children@.len() - i,
    {
        match &file.children[i] {
            SyntaxElement::Node(sub) => {
                if sub.kind == SyntaxKind::SubBlock {
                    assert(green_children(file@)[i as int] == sub@);
                    if !sub_block_ok_exec(sub) {
                        assert(is_node_of(green_children(ast@)[i as int], SyntaxKind::SubBlock));
                        return false;
                    }
                }
            },
            SyntaxElement::Token(_) => {},
        }
        i = i + 1;
    }
    true
}

} // verus!
