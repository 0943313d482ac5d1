//! What the parser builds, the evaluator can run: a program that was
//! parsed ends with a value or with one of the errors of a program, never
//! with an error of the tree.

use vstd::prelude::*;
use crate::grammar;
use crate::semantics::{
    Bindings, Callee, Table, bindings, definition, entry_call, eval, eval_each, fold, load,
    run_body, start,
};
use crate::shape::{
    are_definitions, are_expressions, are_statements, is_arithmetic, is_definition,
    is_expression, is_program, is_statement,
};
use crate::soundness::lemma_program;
use crate::tree::Tree;
use crate::value::{Datum, EvalError, Operator, MAX_DEPTH, apply, operator_of};

verus! {

/// A result that a well-formed program can end with: a value, or an error
/// other than `Malformed` and `NoValue`.
pub open spec fn is_clean(result: Result<Datum, EvalError>) -> bool {
    result != Err::<Datum, EvalError>(EvalError::Malformed) && result != Err::<Datum, EvalError>(
        EvalError::NoValue,
    )
}

/// Every function of the table has statements, one at least.
pub open spec fn table_is_sound(table: Table) -> bool {
    forall|name: Seq<char>| #[trigger]
        table.contains_key(name) ==> table[name].body.len() > 0 && are_statements(
            table[name].body,
        )
}

/// What can stand where a value is computed: an expression, arithmetic, a
/// boolean or a string.
pub open spec fn is_term(tree: Tree) -> bool {
    is_expression(tree) || is_arithmetic(tree) || tree is Bool || tree is String
}

/// The evaluation of a term in a frame keeps the frame and ends clean.
pub proof fn lemma_eval_term(table: Table, depth: nat, frame: Option<Bindings>, tree: Tree)
    requires
        table_is_sound(table),
        frame is Some,
        is_term(tree),
    ensures
        eval(table, depth, frame, tree).frame is Some,
        is_clean(eval(table, depth, frame, tree).result),
    decreases MAX_DEPTH - depth, tree, 0nat,
{
    match tree {
        Tree::Expression { children } => {
            assert(is_expression(tree));
            lemma_eval_term(table, depth, frame, children[0]);
        },
        Tree::MathExpression { name, children } => {
            lemma_eval_term(table, depth, frame, children[0]);
            let first = eval(table, depth, frame, children[0]);
            match first.result {
                Ok(Datum::Number(a)) => {
                    lemma_fold(table, depth, first.frame, operator_of(name)->0, children, 1, a);
                },
                _ => {},
            }
        },
        Tree::FunctionCall { name, children } => {
            if table.contains_key(name) && table[name].params.len() == children.len() {
                lemma_eval_each(table, depth, frame, children, 0, Seq::empty());
                let args = eval_each(table, depth, frame, children, 0, Seq::empty());
                match args.result {
                    Ok(values) => {
                        if depth < MAX_DEPTH {
                            let callee = table[name];
                            lemma_run_body(
                                table,
                                depth + 1,
                                Some(bindings(callee.params, values, values.len())),
                                callee.body,
                                0,
                                Err(EvalError::NoValue),
                            );
                        }
                    },
                    Err(_) => {},
                }
            }
        },
        _ => {},
    }
}

/// Folding operands that are arithmetic keeps the frame and ends clean.
pub proof fn lemma_fold(
    table: Table,
    depth: nat,
    frame: Option<Bindings>,
    op: Operator,
    operands: Seq<Tree>,
    i: nat,
    acc: i32,
)
    requires
        table_is_sound(table),
        frame is Some,
        forall|j: int| i <= j < operands.len() ==> is_arithmetic(#[trigger] operands[j]),
    ensures
        fold(table, depth, frame, op, operands, i, acc).frame is Some,
        is_clean(fold(table, depth, frame, op, operands, i, acc).result),
    decreases MAX_DEPTH - depth, operands, operands.len() - i,
{
    if i < operands.len() {
        lemma_eval_term(table, depth, frame, operands[i as int]);
        let next = eval(table, depth, frame, operands[i as int]);
        match next.result {
            Ok(Datum::Number(b)) => match apply(op, acc, b) {
                Ok(c) => {
                    lemma_fold(table, depth, next.frame, op, operands, i + 1, c);
                },
                Err(_) => {},
            },
            _ => {},
        }
    }
}

/// Evaluating arguments that are expressions keeps the frame, and fails,
/// if it does, with a clean error.
pub proof fn lemma_eval_each(
    table: Table,
    depth: nat,
    frame: Option<Bindings>,
    args: Seq<Tree>,
    i: nat,
    values: Seq<Datum>,
)
    requires
        table_is_sound(table),
        frame is Some,
        are_expressions(args),
    ensures
        eval_each(table, depth, frame, args, i, values).frame is Some,
        eval_each(table, depth, frame, args, i, values).result matches Err(e) ==> e
            != EvalError::Malformed && e != EvalError::NoValue,
    decreases MAX_DEPTH - depth, args, args.len() - i,
{
    if i < args.len() {
        lemma_eval_term(table, depth, frame, args[i as int]);
        let next = eval(table, depth, frame, args[i as int]);
        match next.result {
            Ok(v) => {
                lemma_eval_each(table, depth, next.frame, args, i + 1, values.push(v));
            },
            Err(_) => {},
        }
    }
}

/// The evaluation of a statement in a frame keeps the frame and ends clean.
pub proof fn lemma_eval_statement(
    table: Table,
    depth: nat,
    frame: Option<Bindings>,
    tree: Tree,
)
    requires
        table_is_sound(table),
        frame is Some,
        is_statement(tree),
    ensures
        eval(table, depth, frame, tree).frame is Some,
        is_clean(eval(table, depth, frame, tree).result),
    decreases MAX_DEPTH - depth, tree, 1nat,
{
    reveal_with_fuel(eval, 2);
    let child = tree->Statement_children[0];
    match child {
        Tree::VariableDefine { children: parts } => {
            lemma_eval_term(table, depth, frame, parts[1]);
        },
        Tree::FunctionReturn { children: parts } => {
            lemma_eval_term(table, depth, frame, parts[0]);
        },
        _ => {
            lemma_eval_term(table, depth, frame, child);
        },
    }
}

/// Running statements in a frame keeps the frame and ends clean, where a
/// statement is left to run or an earlier one has given a value.
pub proof fn lemma_run_body(
    table: Table,
    depth: nat,
    frame: Option<Bindings>,
    body: Seq<Tree>,
    i: nat,
    last: Result<Datum, EvalError>,
)
    requires
        table_is_sound(table),
        frame is Some,
        are_statements(body),
        i < body.len() || is_clean(last),
    ensures
        run_body(table, depth, frame, body, i, last).frame is Some,
        is_clean(run_body(table, depth, frame, body, i, last).result),
    decreases MAX_DEPTH - depth, body, body.len() - i,
{
    if i < body.len() {
        lemma_eval_statement(table, depth, frame, body[i as int]);
        let next = eval(table, depth, frame, body[i as int]);
        if !(next.result is Err || crate::semantics::is_return(body[i as int])) {
            lemma_run_body(table, depth, next.frame, body, i + 1, next.result);
        }
    }
}

/// What a function definition of the right shape defines has statements.
pub proof fn lemma_definition(tree: Tree)
    requires
        is_definition(tree),
    ensures
        definition(tree) matches Some((_, callee)) && callee.body.len() > 0 && are_statements(
            callee.body,
        ),
{
}

/// Registering function definitions of the right shape does not fail, and
/// keeps the table sound.
pub proof fn lemma_load(table: Table, items: Seq<Tree>, i: nat)
    requires
        table_is_sound(table),
        are_definitions(items),
    ensures
        load(table, items, i).failure is None,
        table_is_sound(load(table, items, i).table),
    decreases items.len() - i,
{
    if i < items.len() {
        lemma_definition(items[i as int]);
        let (name, callee) = definition(items[i as int])->0;
        let next = table.insert(name, callee);
        assert(table_is_sound(next)) by {
            assert forall|other: Seq<char>| #[trigger] next.contains_key(other) implies next[other].body.len()
                > 0 && are_statements(next[other].body) by {
                if other != name {
                    assert(table.contains_key(other));
                }
            }
        }
        lemma_load(next, items, i + 1);
    }
}

/// A call of `main` on an empty call stack ends clean.
pub proof fn lemma_entry_call(table: Table)
    requires
        table_is_sound(table),
    ensures
        is_clean(eval(table, 0, None, entry_call()).result),
{
    let name = seq!['m', 'a', 'i', 'n'];
    if table.contains_key(name) && table[name].params.len() == 0 {
        let callee = table[name];
        let none = Seq::<Datum>::empty();
        assert(eval_each(table, 0, None, Seq::<Tree>::empty(), 0, none).result == Ok::<
            Seq<Datum>,
            EvalError,
        >(none));
        lemma_run_body(
            table,
            1,
            Some(bindings(callee.params, none, 0)),
            callee.body,
            0,
            Err(EvalError::NoValue),
        );
    }
}

/// Running a program of the right shape from nothing ends with a value or
/// with one of the errors of a program: an undefined variable, an
/// undefined function, an arity mismatch, a type mismatch, a division by
/// zero, or the exhaustion of the call stack.
pub proof fn lemma_program_runs_clean(tree: Tree)
    requires
        is_program(tree),
    ensures
        is_clean(start(tree)),
{
    let table = Map::<Seq<char>, Callee>::empty();
    assert(table_is_sound(table));
    lemma_load(table, tree->Program_children, 0);
    lemma_entry_call(load(table, tree->Program_children, 0).table);
}

/// Whatever source text is parsed, running its tree ends with a value or
/// with one of the errors of a program.
pub proof fn lemma_parsed_program_runs_clean(source: Seq<char>)
    ensures
        grammar::parse(source) matches Ok(tree) ==> is_clean(start(tree)),
{
    lemma_program(source);
    match grammar::parse(source) {
        Ok(tree) => {
            lemma_program_runs_clean(tree);
        },
        Err(_) => {},
    }
}

} // verus!
