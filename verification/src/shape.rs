//! The shapes of the trees that the parser builds.

use vstd::prelude::*;
use crate::tree::Tree;
use crate::value::operator_of;

verus! {

/// An expression: an `Expression` node whose only child is a boolean, a
/// string, or arithmetic.
pub open spec fn is_expression(tree: Tree) -> bool
    decreases tree, 0nat,
{
    match tree {
        Tree::Expression { children } => children.len() == 1 && (children[0] is Bool
            || children[0] is String || is_arithmetic(children[0])),
        _ => false,
    }
}

/// Arithmetic: a number, an identifier, a call whose arguments are
/// expressions, an operator with exactly two operands that are arithmetic,
/// or an expression, which stood in parentheses.
pub open spec fn is_arithmetic(tree: Tree) -> bool
    decreases tree, 1nat,
{
    match tree {
        Tree::Number { .. } => true,
        Tree::Identifier { .. } => true,
        Tree::FunctionCall { children, .. } => forall|i: int|
            0 <= i < children.len() ==> is_expression(#[trigger] children[i]),
        Tree::MathExpression { name, children } => operator_of(name) is Some && children.len()
            == 2 && is_arithmetic(children[0]) && is_arithmetic(children[1]),
        Tree::Expression { .. } => is_expression(tree),
        _ => false,
    }
}

/// An operator that waits for its first operand: it has a sign and one
/// operand, which is arithmetic.
pub open spec fn is_pending(tree: Tree) -> bool {
    match tree {
        Tree::MathExpression { name, children } => operator_of(name) is Some && children.len()
            == 1 && is_arithmetic(children[0]),
        _ => false,
    }
}

/// Every tree of `list` is an expression.
pub open spec fn are_expressions(list: Seq<Tree>) -> bool {
    forall|i: int| 0 <= i < list.len() ==> is_expression(#[trigger] list[i])
}

/// Every tree of `list` is an identifier.
pub open spec fn are_identifiers(list: Seq<Tree>) -> bool {
    forall|i: int| 0 <= i < list.len() ==> (#[trigger] list[i]) is Identifier
}

/// A statement: a `Statement` node whose only child is a variable
/// declaration with a name and an expression, a return of an expression,
/// or an expression.
pub open spec fn is_statement(tree: Tree) -> bool {
    match tree {
        Tree::Statement { children } => children.len() == 1 && match children[0] {
            Tree::VariableDefine { children: parts } => parts.len() == 2
                && parts[0] is Identifier && is_expression(parts[1]),
            Tree::FunctionReturn { children: parts } => parts.len() == 1 && is_expression(
                parts[0],
            ),
            other => is_expression(other),
        },
        _ => false,
    }
}

/// Every tree of `list` is a statement.
pub open spec fn are_statements(list: Seq<Tree>) -> bool {
    forall|i: int| 0 <= i < list.len() ==> is_statement(#[trigger] list[i])
}

/// A function definition: the name, the parameters, which are identifiers,
/// and the statements, one at least.
pub open spec fn is_definition(tree: Tree) -> bool {
    match tree {
        Tree::FunctionDefine { children } => {
            &&& children.len() == 3
            &&& children[0] is Identifier
            &&& children[1] matches Tree::FunctionArguments { children: params }
                && are_identifiers(params)
            &&& children[2] matches Tree::FunctionStatements { children: body } && body.len() > 0
                && are_statements(body)
        },
        _ => false,
    }
}

/// Every tree of `list` is a function definition.
pub open spec fn are_definitions(list: Seq<Tree>) -> bool {
    forall|i: int| 0 <= i < list.len() ==> is_definition(#[trigger] list[i])
}

/// A program: function definitions, one at least.
pub open spec fn is_program(tree: Tree) -> bool {
    match tree {
        Tree::Program { children } => children.len() > 0 && are_definitions(children),
        _ => false,
    }
}

} // verus!
