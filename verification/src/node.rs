//! The syntax tree that the parser builds and the runtime walks.

use vstd::prelude::*;
use crate::tree::Tree;

verus! {

broadcast use {
    vstd::std_specs::vec::axiom_vec_index_decreases,
    vstd::std_specs::vec::axiom_vec_decreases_to_view,
    vstd::seq::axiom_seq_index_decreases,
};

/// A node of the syntax tree: a leaf with a value, or an interior node with
/// its children in order and, for two kinds, a name.
#[derive(Debug)]
#[allow(inconsistent_fields)]
pub enum Node {
    /// The function definitions of a program.
    Program { children: Vec<Node> },
    /// One statement: its only child is what it does.
    Statement { children: Vec<Node> },
    /// `return`: its only child is the value returned.
    FunctionReturn { children: Vec<Node> },
    /// A definition: the name, the parameters, the statements.
    FunctionDefine { children: Vec<Node> },
    /// The parameters of a definition, or the arguments of a call.
    FunctionArguments { children: Vec<Node> },
    /// The statements of a definition.
    FunctionStatements { children: Vec<Node> },
    /// One expression: its only child is what it computes.
    Expression { children: Vec<Node> },
    /// An operator, named by its sign, applied to its operands from the left.
    MathExpression { name: String, children: Vec<Node> },
    /// A call of the named function; the children are the arguments.
    FunctionCall { name: String, children: Vec<Node> },
    /// `let`: the variable's name, then its value.
    VariableDefine { children: Vec<Node> },
    Number { value: i32 },
    Bool { value: bool },
    Identifier { value: String },
    String { value: String },
}

/// The trees of a sequence of nodes, in order.
pub open spec fn trees(nodes: Seq<Node>) -> Seq<Tree>
    decreases nodes,
{
    Seq::new(
        nodes.len(),
        |i: int|
            if 0 <= i < nodes.len() {
                nodes[i].view()
            } else {
                Tree::Bool { value: false }
            },
    )
}

impl View for Node {
    type V = Tree;

    open spec fn view(&self) -> Tree
        decreases self,
    {
        match self {
            Node::Program { children } => Tree::Program { children: trees(children@) },
            Node::Statement { children } => Tree::Statement { children: trees(children@) },
            Node::FunctionReturn { children } => Tree::FunctionReturn {
                children: trees(children@),
            },
            Node::FunctionDefine { children } => Tree::FunctionDefine {
                children: trees(children@),
            },
            Node::FunctionArguments { children } => Tree::FunctionArguments {
                children: trees(children@),
            },
            Node::FunctionStatements { children } => Tree::FunctionStatements {
                children: trees(children@),
            },
            Node::Expression { children } => Tree::Expression { children: trees(children@) },
            Node::MathExpression { name, children } => Tree::MathExpression {
                name: name@,
                children: trees(children@),
            },
            Node::FunctionCall { name, children } => Tree::FunctionCall {
                name: name@,
                children: trees(children@),
            },
            Node::VariableDefine { children } => Tree::VariableDefine {
                children: trees(children@),
            },
            Node::Number { value } => Tree::Number { value: *value },
            Node::Bool { value } => Tree::Bool { value: *value },
            Node::Identifier { value } => Tree::Identifier { value: value@ },
            Node::String { value } => Tree::String { value: value@ },
        }
    }
}

/// Copies a vector of nodes, each with all that hangs below it.
pub fn clone_nodes(nodes: &Vec<Node>) -> (copy: Vec<Node>)
    ensures
        trees(copy@) == trees(nodes@),
    decreases nodes,
{
    let mut copy: Vec<Node> = Vec::new();
    let mut i: usize = 0;
    while i < nodes.len()
        invariant
            i <= nodes.len(),
            copy@.len() == i,
            forall|j: int| 0 <= j < i ==> copy@[j]@ == nodes@[j]@,
        decreases nodes.len() - i,
    {
        let child = nodes[i].clone();
        copy.push(child);
        i += 1;
    }
    assert(trees(copy@) =~= trees(nodes@));
    copy
}

impl Clone for Node {
    /// A copy of the node and of all that hangs below it.
    fn clone(&self) -> (copy: Node)
        ensures
            copy@ == self@,
        decreases self,
    {
        match self {
            Node::Program { children } => Node::Program { children: clone_nodes(children) },
            Node::Statement { children } => Node::Statement { children: clone_nodes(children) },
            Node::FunctionReturn { children } => Node::FunctionReturn {
                children: clone_nodes(children),
            },
            Node::FunctionDefine { children } => Node::FunctionDefine {
                children: clone_nodes(children),
            },
            Node::FunctionArguments { children } => Node::FunctionArguments {
                children: clone_nodes(children),
            },
            Node::FunctionStatements { children } => Node::FunctionStatements {
                children: clone_nodes(children),
            },
            Node::Expression { children } => Node::Expression { children: clone_nodes(children) },
            Node::MathExpression { name, children } => Node::MathExpression {
                name: name.clone(),
                children: clone_nodes(children),
            },
            Node::FunctionCall { name, children } => Node::FunctionCall {
                name: name.clone(),
                children: clone_nodes(children),
            },
            Node::VariableDefine { children } => Node::VariableDefine {
                children: clone_nodes(children),
            },
            Node::Number { value } => Node::Number { value: *value },
            Node::Bool { value } => Node::Bool { value: *value },
            Node::Identifier { value } => Node::Identifier { value: value.clone() },
            Node::String { value } => Node::String { value: value.clone() },
        }
    }
}

} // verus!
