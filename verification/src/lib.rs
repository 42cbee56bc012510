//! A small-language toolchain: a recursive-descent parser that turns
//! source text into a syntax tree, a code generator that lowers the tree
//! into LLVM-style textual IR around a fixed native entry point, and a
//! tree-walking interpreter over the same tree.
//!
//! Each part is specified once as mathematics — the grammar in
//! [`parsers::grammar`], the lowering rules in [`llvm::lowering`], the
//! rendered text in [`llvm::render`], the evaluation rules in
//! [`akame_interpreter::interpreter`] — and the executable code is proved
//! to follow those definitions exactly.

pub mod akame_interpreter;
pub mod ast;
pub mod llvm;
pub mod parsers;
pub mod text;
