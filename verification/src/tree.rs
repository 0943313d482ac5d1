//! The mathematical model of a syntax tree.

use vstd::prelude::*;

verus! {

/// A syntax tree as a value of mathematics: what a
/// [`Node`](crate::node::Node) holds, with sequences in place of vectors and
/// strings. Contracts speak of trees; programs handle nodes.
#[allow(inconsistent_fields)]
pub enum Tree {
    Program { children: Seq<Tree> },
    Statement { children: Seq<Tree> },
    FunctionReturn { children: Seq<Tree> },
    FunctionDefine { children: Seq<Tree> },
    FunctionArguments { children: Seq<Tree> },
    FunctionStatements { children: Seq<Tree> },
    Expression { children: Seq<Tree> },
    MathExpression { name: Seq<char>, children: Seq<Tree> },
    FunctionCall { name: Seq<char>, children: Seq<Tree> },
    VariableDefine { children: Seq<Tree> },
    Number { value: i32 },
    Bool { value: bool },
    Identifier { value: Seq<char> },
    String { value: Seq<char> },
}

impl Tree {
    /// The children of an interior tree; a leaf has none.
    pub open spec fn children(self) -> Seq<Tree> {
        match self {
            Tree::Program { children } => children,
            Tree::Statement { children } => children,
            Tree::FunctionReturn { children } => children,
            Tree::FunctionDefine { children } => children,
            Tree::FunctionArguments { children } => children,
            Tree::FunctionStatements { children } => children,
            Tree::Expression { children } => children,
            Tree::MathExpression { children, .. } => children,
            Tree::FunctionCall { children, .. } => children,
            Tree::VariableDefine { children } => children,
            _ => Seq::empty(),
        }
    }
}

} // verus!
