//! What a syntax tree means: the evaluation of a tree, defined on the
//! mathematical models of the function table and of the call stack.
//!
//! An evaluation sees the function table, the number of frames on the call
//! stack, and the frame on top of it. It can change that one frame only: a
//! call runs the callee's statements in a frame of its own, which is gone
//! when the call is over.

use vstd::prelude::*;
use crate::tree::Tree;
use crate::value::{Datum, EvalError, Operator, MAX_DEPTH, operator_of, apply};

verus! {

/// A frame: the variables of one function invocation.
pub type Bindings = Map<Seq<char>, Datum>;

/// What the function table holds of one function.
pub struct Callee {
    pub params: Seq<Seq<char>>,
    pub body: Seq<Tree>,
}

/// The function table.
pub type Table = Map<Seq<char>, Callee>;

/// How an evaluation ends: with a value or an error, and with the frame on
/// top of the call stack as the evaluation left it (`None` where the stack
/// is empty).
pub struct Outcome {
    pub result: Result<Datum, EvalError>,
    pub frame: Option<Bindings>,
}

/// How the evaluation of the arguments of a call ends.
pub struct Evaluated {
    pub result: Result<Seq<Datum>, EvalError>,
    pub frame: Option<Bindings>,
}

/// The statements that end a call: `return`, or a statement that holds
/// nothing but a `return`.
pub open spec fn is_return(tree: Tree) -> bool {
    match tree {
        Tree::FunctionReturn { .. } => true,
        Tree::Statement { children } => children.len() == 1
            && children[0] is FunctionReturn,
        _ => false,
    }
}

/// The value of a variable: looked up in the top frame and nowhere else.
pub open spec fn lookup(frame: Option<Bindings>, name: Seq<char>) -> Result<Datum, EvalError> {
    match frame {
        Some(vars) => if vars.contains_key(name) {
            Ok(vars[name])
        } else {
            Err(EvalError::UndefinedVariable)
        },
        None => Err(EvalError::UndefinedVariable),
    }
}

/// Binds `name` to `value` in the top frame, in place of an earlier binding
/// of that name; without a frame there is nowhere to bind.
pub open spec fn bind(frame: Option<Bindings>, name: Seq<char>, value: Datum) -> Outcome {
    match frame {
        Some(vars) => Outcome { result: Ok(value), frame: Some(vars.insert(name, value)) },
        None => Outcome { result: Err(EvalError::Malformed), frame: None },
    }
}

/// The frame of a call: the first `n` parameters bound to the first `n`
/// values, a later parameter of the same name over an earlier one.
pub open spec fn bindings(params: Seq<Seq<char>>, values: Seq<Datum>, n: nat) -> Bindings
    decreases n,
{
    if n == 0 {
        Map::empty()
    } else {
        bindings(params, values, (n - 1) as nat).insert(params[n - 1], values[n - 1])
    }
}

/// The evaluation of `tree` with `depth` frames on the call stack, `frame`
/// on top of them.
pub open spec fn eval(table: Table, depth: nat, frame: Option<Bindings>, tree: Tree) -> Outcome
    decreases MAX_DEPTH - depth, tree, 0nat,
{
    match tree {
        Tree::Number { value } => Outcome { result: Ok(Datum::Number(value)), frame },
        Tree::Bool { value } => Outcome { result: Ok(Datum::Bool(value)), frame },
        Tree::String { value } => Outcome { result: Ok(Datum::String(value)), frame },
        Tree::Identifier { value } => Outcome { result: lookup(frame, value), frame },
        Tree::Expression { children }
        | Tree::Statement { children }
        | Tree::FunctionReturn { children } => {
            if children.len() == 1 {
                eval(table, depth, frame, children[0])
            } else {
                Outcome { result: Err(EvalError::Malformed), frame }
            }
        },
        Tree::VariableDefine { children } => {
            if children.len() == 2 && children[0] is Identifier {
                let value = eval(table, depth, frame, children[1]);
                match value.result {
                    Ok(v) => bind(value.frame, children[0]->Identifier_value, v),
                    Err(_) => value,
                }
            } else {
                Outcome { result: Err(EvalError::Malformed), frame }
            }
        },
        Tree::MathExpression { name, children } => {
            if children.len() >= 2 && operator_of(name) is Some {
                let first = eval(table, depth, frame, children[0]);
                match first.result {
                    Ok(Datum::Number(a)) => fold(
                        table,
                        depth,
                        first.frame,
                        operator_of(name)->0,
                        children,
                        1,
                        a,
                    ),
                    Ok(_) => Outcome { result: Err(EvalError::TypeMismatch), frame: first.frame },
                    Err(_) => first,
                }
            } else {
                Outcome { result: Err(EvalError::Malformed), frame }
            }
        },
        Tree::FunctionCall { name, children } => {
            if !table.contains_key(name) {
                Outcome { result: Err(EvalError::UndefinedFunction), frame }
            } else if table[name].params.len() != children.len() {
                Outcome { result: Err(EvalError::ArityMismatch), frame }
            } else {
                let args = eval_each(table, depth, frame, children, 0, Seq::empty());
                match args.result {
                    Ok(values) => {
                        if depth >= MAX_DEPTH {
                            Outcome { result: Err(EvalError::StackExhausted), frame: args.frame }
                        } else {
                            let callee = table[name];
                            let fresh = bindings(callee.params, values, values.len());
                            let end = run_body(
                                table,
                                depth + 1,
                                Some(fresh),
                                callee.body,
                                0,
                                Err(EvalError::NoValue),
                            );
                            Outcome { result: end.result, frame: args.frame }
                        }
                    },
                    Err(e) => Outcome { result: Err(e), frame: args.frame },
                }
            }
        },
        _ => Outcome { result: Err(EvalError::Malformed), frame },
    }
}

/// The operands of an operator from the `i`-th on, each folded into `acc`
/// from the left: the value of `[a, b, c]` under `op` is `(a op b) op c`.
pub open spec fn fold(
    table: Table,
    depth: nat,
    frame: Option<Bindings>,
    op: Operator,
    operands: Seq<Tree>,
    i: nat,
    acc: i32,
) -> Outcome
    decreases MAX_DEPTH - depth, operands, operands.len() - i,
{
    if i >= operands.len() {
        Outcome { result: Ok(Datum::Number(acc)), frame }
    } else {
        let next = eval(table, depth, frame, operands[i as int]);
        match next.result {
            Ok(Datum::Number(b)) => match apply(op, acc, b) {
                Ok(c) => fold(table, depth, next.frame, op, operands, i + 1, c),
                Err(e) => Outcome { result: Err(e), frame: next.frame },
            },
            Ok(_) => Outcome { result: Err(EvalError::TypeMismatch), frame: next.frame },
            Err(_) => next,
        }
    }
}

/// The arguments of a call from the `i`-th on, evaluated from left to right
/// in the caller's frame, their values appended to `values`. The first
/// failure ends it.
pub open spec fn eval_each(
    table: Table,
    depth: nat,
    frame: Option<Bindings>,
    args: Seq<Tree>,
    i: nat,
    values: Seq<Datum>,
) -> Evaluated
    decreases MAX_DEPTH - depth, args, args.len() - i,
{
    if i >= args.len() {
        Evaluated { result: Ok(values), frame }
    } else {
        let next = eval(table, depth, frame, args[i as int]);
        match next.result {
            Ok(v) => eval_each(table, depth, next.frame, args, i + 1, values.push(v)),
            Err(e) => Evaluated { result: Err(e), frame: next.frame },
        }
    }
}

/// The statements of a function from the `i`-th on, run in order. The first
/// failure ends the run, and so does the first `return`, with its value; a
/// body that runs to its end yields `last`, the value of its last
/// statement.
pub open spec fn run_body(
    table: Table,
    depth: nat,
    frame: Option<Bindings>,
    body: Seq<Tree>,
    i: nat,
    last: Result<Datum, EvalError>,
) -> Outcome
    decreases MAX_DEPTH - depth, body, body.len() - i,
{
    if i >= body.len() {
        Outcome { result: last, frame }
    } else {
        let next = eval(table, depth, frame, body[i as int]);
        if next.result is Err || is_return(body[i as int]) {
            next
        } else {
            run_body(table, depth, next.frame, body, i + 1, next.result)
        }
    }
}

/// The names that a parameter list declares: each parameter is a bare
/// identifier, or the list declares nothing.
pub open spec fn parameter_names(params: Seq<Tree>) -> Option<Seq<Seq<char>>> {
    if forall|i: int| 0 <= i < params.len() ==> (#[trigger] params[i]) is Identifier {
        Some(Seq::new(params.len(), |i: int| params[i]->Identifier_value))
    } else {
        None
    }
}

/// What a function definition defines: the name, and under it the
/// parameters and the statements. A tree of any other shape defines
/// nothing.
pub open spec fn definition(tree: Tree) -> Option<(Seq<char>, Callee)> {
    match tree {
        Tree::FunctionDefine { children } => {
            if children.len() == 3 && children[0] is Identifier
                && children[1] is FunctionArguments && children[2] is FunctionStatements
                && parameter_names(children[1].children()) is Some {
                Some(
                    (
                        children[0]->Identifier_value,
                        Callee {
                            params: parameter_names(children[1].children())->0,
                            body: children[2].children(),
                        },
                    ),
                )
            } else {
                None
            }
        },
        _ => None,
    }
}

/// How the registration of definitions ends: the function table as it was
/// left, and the failure, if there was one.
pub struct Loaded {
    pub failure: Option<EvalError>,
    pub table: Table,
}

/// Registers the function definitions among `items` from the `i`-th on, in
/// order, a later definition of a name over an earlier one. Items that are
/// no definitions are passed over; a definition of the wrong shape ends the
/// registration.
pub open spec fn load(table: Table, items: Seq<Tree>, i: nat) -> Loaded
    decreases items.len() - i,
{
    if i >= items.len() {
        Loaded { failure: None, table }
    } else if items[i as int] is FunctionDefine {
        match definition(items[i as int]) {
            Some((name, callee)) => load(table.insert(name, callee), items, i + 1),
            None => Loaded { failure: Some(EvalError::Malformed), table },
        }
    } else {
        load(table, items, i + 1)
    }
}

/// The call that starts a program: `main`, without arguments.
pub open spec fn entry_call() -> Tree {
    Tree::FunctionCall { name: seq!['m', 'a', 'i', 'n'], children: Seq::empty() }
}

/// How running a tree ends: as an evaluation does, and with the function
/// table as it was left.
pub struct Ran {
    pub outcome: Outcome,
    pub table: Table,
}

/// Runs `tree` in a runtime that holds `table`, with `depth` frames on its
/// call stack and `frame` on top.
///
/// A program has its function definitions registered, before any statement
/// runs, and then its `main` called. A function definition is registered
/// and yields no value. Any other tree is evaluated.
pub open spec fn run(table: Table, depth: nat, frame: Option<Bindings>, tree: Tree) -> Ran {
    match tree {
        Tree::Program { children } => {
            let loaded = load(table, children, 0);
            match loaded.failure {
                Some(e) => Ran { outcome: Outcome { result: Err(e), frame }, table: loaded.table },
                None => Ran {
                    outcome: eval(loaded.table, depth, frame, entry_call()),
                    table: loaded.table,
                },
            }
        },
        Tree::FunctionDefine { .. } => match definition(tree) {
            Some((name, callee)) => Ran {
                outcome: Outcome { result: Err(EvalError::NoValue), frame },
                table: table.insert(name, callee),
            },
            None => Ran { outcome: Outcome { result: Err(EvalError::Malformed), frame }, table },
        },
        _ => Ran { outcome: eval(table, depth, frame, tree), table },
    }
}

/// The result of a program run from nothing: in a new runtime, the tree is
/// run, and `main` is called. A program calls its `main` itself; after any
/// other tree the call is made on what the tree left in the function table.
pub open spec fn start(tree: Tree) -> Result<Datum, EvalError> {
    let first = run(Map::empty(), 0, None, tree);
    if tree is Program {
        first.outcome.result
    } else {
        eval(first.table, 0, None, entry_call()).result
    }
}

} // verus!
