//! The typed view of the tree: a wrapper that a node of the right kind can
//! be cast to.

use vstd::prelude::*;

use crate::syntax::tree::{Green, SyntaxNode};
use crate::syntax::SyntaxKind;

verus! {

/// A whole source file: a node of kind `BasFile`.
pub struct BasFile {
    pub syntax: SyntaxNode,
}

impl View for BasFile {
    type V = Green;

    open spec fn view(&self) -> Green {
        self.syntax@
    }
}

impl BasFile {
    /// Whether a node of kind `kind` can be cast to a `BasFile`.
    pub fn can_cast(kind: SyntaxKind) -> (b: bool)
        ensures
            b == (kind == SyntaxKind::BasFile),
    {
        kind == SyntaxKind::BasFile
    }

    /// The node as a `BasFile`, if it has that kind.
    pub fn cast(syntax: SyntaxNode) -> (file: Option<BasFile>)
        ensures
            syntax.kind == SyntaxKind::BasFile ==> file == Some(BasFile { syntax }),
            syntax.kind != SyntaxKind::BasFile ==> file is None,
    {
        if Self::can_cast(syntax.kind) {
            Some(BasFile { syntax })
        } else {
            None
        }
    }

    /// The node underneath.
    pub fn syntax(&self) -> (node: &SyntaxNode)
        ensures
            *node == self.syntax,
    {
        &self.syntax
    }
}

} // verus!
