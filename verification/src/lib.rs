//! The semantic middle-end of the Capy compiler: interning, lowering of
//! syntax trees into a per-file high-level intermediate representation,
//! the numeric rules of the type checker, diagnostics, and the decisions
//! of the code-generation driver.

pub mod body;
pub mod cast;
pub mod codegen;
pub mod comptime;
pub mod debug;
pub mod diagnostics;
pub mod hir;
pub mod host;
pub mod index;
pub mod interner;
pub mod line_index;
pub mod literal;
pub mod lower;
pub mod lower_spec;
pub mod marker;
pub mod names;
pub mod nesting;
pub mod ops;
pub mod primitive;
pub mod show;
pub mod snippet;
pub mod store;
pub mod syntax;
pub mod text;
pub mod text_range;
pub mod token;
pub mod ty;
pub mod uid;
pub mod weight;
