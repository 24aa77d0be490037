//! A compiler for a small dialect of Visual Basic: lexing, parsing into a
//! lossless concrete syntax tree, lowering, and the target-specific decisions
//! that the driver hands to LLVM and the system linker.

pub mod syntax;
pub mod hir;
pub mod ty;
pub mod stdlib;
pub mod argparse;
pub mod link;
pub mod codegen;
