//! A small scripting language: a precedence-aware parser that turns source
//! text into a syntax tree, and a tree-walking evaluator with a call stack.
//!
//! Every executable function carries a contract that Verus proves. The
//! contracts speak of mathematical models: a source text is a `Seq<char>`,
//! a syntax tree is a [`tree::Tree`], a runtime value is a
//! [`value::Datum`]. The grammar is defined once, in [`grammar`], and the
//! meaning of a tree once, in [`semantics`]; [`parser`] and [`runtime`] are
//! proved to compute exactly these.
//!
//! What holds of every input is proved on the models: [`soundness`] shows
//! that the grammar builds trees of the shapes described in [`shape`],
//! [`safety`] that a program of that shape runs without an error of the
//! tree, and [`laws`] holds smaller facts about numbers, names and calls.
//!
//! The characters of the source text are recognized by the `nom` crate,
//! behind the contracts of [`scan`].

pub mod text;
pub mod scan;
pub mod tree;
pub mod node;
pub mod grammar;
pub mod shape;
pub mod soundness;
pub mod parser;
pub mod value;
pub mod semantics;
pub mod runtime;
pub mod laws;
pub mod safety;
