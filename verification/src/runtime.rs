//! The runtime: a function table, a call stack, and the evaluator that
//! walks a syntax tree on them.

use vstd::prelude::*;
use vstd::hash_map::StringHashMap;
use crate::node::{Node, trees, clone_nodes};
use crate::semantics;
use crate::semantics::{Bindings, Callee, Outcome, Table};
use crate::tree::Tree;
use crate::value::{Datum, Operator, MAX_DEPTH, operator, compute};

pub use crate::value::{EvalError, Value};

verus! {

broadcast use {
    vstd::std_specs::vec::axiom_vec_index_decreases,
    vstd::std_specs::vec::axiom_vec_decreases_to_view,
    vstd::seq::axiom_seq_index_decreases,
};

/// A call frame: the variables of one function invocation, each name bound
/// to one value.
pub struct Frame {
    vars: StringHashMap<Value>,
}

impl View for Frame {
    type V = Bindings;

    closed spec fn view(&self) -> Bindings {
        Map::new(|k: Seq<char>| self.vars@.contains_key(k), |k: Seq<char>| self.vars@[k]@)
    }
}

impl Frame {
    /// A frame without variables.
    pub fn new() -> (frame: Frame)
        ensures
            frame@ == Map::<Seq<char>, Datum>::empty(),
    {
        let frame = Frame { vars: StringHashMap::new() };
        assert(frame@ =~= Map::<Seq<char>, Datum>::empty());
        frame
    }

    /// Binds `name` to `value`, in place of an earlier binding of `name`.
    pub fn bind(&mut self, name: String, value: Value)
        ensures
            final(self)@ == old(self)@.insert(name@, value@),
    {
        self.vars.insert(name, value);
        assert(self@ =~= old(self)@.insert(name@, value@));
    }

    /// The value bound to `name`, if there is one.
    pub fn get(&self, name: &str) -> (found: Option<Value>)
        ensures
            match found {
                Some(value) => self@.contains_key(name@) && value@ == self@[name@],
                None => !self@.contains_key(name@),
            },
    {
        match self.vars.get(name) {
            Some(value) => Some(value.clone()),
            None => None,
        }
    }
}

/// The views of a sequence of strings, in order.
pub open spec fn names(strings: Seq<String>) -> Seq<Seq<char>> {
    Seq::new(strings.len(), |i: int| strings[i]@)
}

/// A function as the function table holds it.
pub struct Function {
    pub params: Vec<String>,
    pub body: Vec<Node>,
}

impl View for Function {
    type V = Callee;

    open spec fn view(&self) -> Callee {
        Callee { params: names(self.params@), body: trees(self.body@) }
    }
}

/// The function table: each name with the one function defined under it.
pub struct FunctionTable {
    entries: StringHashMap<Function>,
}

impl View for FunctionTable {
    type V = Table;

    closed spec fn view(&self) -> Table {
        Map::new(
            |k: Seq<char>| self.entries@.contains_key(k),
            |k: Seq<char>| self.entries@[k]@,
        )
    }
}

impl FunctionTable {
    /// A table without functions.
    pub fn new() -> (table: FunctionTable)
        ensures
            table@ == Map::<Seq<char>, Callee>::empty(),
    {
        let table = FunctionTable { entries: StringHashMap::new() };
        assert(table@ =~= Map::<Seq<char>, Callee>::empty());
        table
    }

    /// Puts `function` under `name`, in place of an earlier function of that
    /// name.
    pub fn define(&mut self, name: String, function: Function)
        ensures
            final(self)@ == old(self)@.insert(name@, function@),
    {
        self.entries.insert(name, function);
        assert(self@ =~= old(self)@.insert(name@, function@));
    }

    /// The function under `name`, if there is one.
    pub fn get(&self, name: &str) -> (found: Option<&Function>)
        ensures
            match found {
                Some(function) => self@.contains_key(name@) && function@ == self@[name@],
                None => !self@.contains_key(name@),
            },
    {
        self.entries.get(name)
    }
}

/// The frame on top of a call stack, if the stack has one.
pub open spec fn top(stack: Seq<Frame>) -> Option<Bindings> {
    if stack.len() > 0 {
        Some(stack.last()@)
    } else {
        None
    }
}

/// The model of a result.
pub open spec fn result_model(r: Result<Value, EvalError>) -> Result<Datum, EvalError> {
    match r {
        Ok(value) => Ok(value@),
        Err(e) => Err(e),
    }
}

/// A call stack after an evaluation is as deep as before it, and below its
/// top frame it is what it was.
pub open spec fn below_kept(before: Seq<Frame>, after: Seq<Frame>) -> bool {
    &&& after.len() == before.len()
    &&& forall|i: int| 0 <= i < before.len() - 1 ==> after[i] == before[i]
}

/// An evaluation that took the call stack from `before` to `after` and
/// returned `r` ended as `outcome` says.
pub open spec fn ends_as(
    before: Seq<Frame>,
    after: Seq<Frame>,
    r: Result<Value, EvalError>,
    outcome: Outcome,
) -> bool {
    &&& below_kept(before, after)
    &&& top(after) == outcome.frame
    &&& result_model(r) == outcome.result
}

/// Evaluates `node` on the call stack `stack`, with the functions of
/// `table`.
pub fn eval(table: &FunctionTable, stack: &mut Vec<Frame>, node: &Node) -> (r: Result<
    Value,
    EvalError,
>)
    ensures
        ends_as(
            old(stack)@,
            final(stack)@,
            r,
            semantics::eval(table@, old(stack)@.len(), top(old(stack)@), node@),
        ),
    decreases MAX_DEPTH - old(stack)@.len(), node, 0nat,
{
    match node {
        Node::Number { value } => Ok(Value::Number(*value)),
        Node::Bool { value } => Ok(Value::Bool(*value)),
        Node::String { value } => Ok(Value::String(value.clone())),
        Node::Identifier { value } => {
            if stack.len() == 0 {
                Err(EvalError::UndefinedVariable)
            } else {
                match stack[stack.len() - 1].get(value.as_str()) {
                    Some(found) => Ok(found),
                    None => Err(EvalError::UndefinedVariable),
                }
            }
        },
        Node::Expression { children } => eval_only(table, stack, children),
        Node::Statement { children } => eval_only(table, stack, children),
        Node::FunctionReturn { children } => eval_only(table, stack, children),
        Node::VariableDefine { children } => {
            assert(trees(children@).len() == children@.len());
            if children.len() != 2 {
                return Err(EvalError::Malformed);
            }
            match &children[0] {
                Node::Identifier { value: name } => {
                    match eval(table, stack, &children[1]) {
                        Ok(value) => match stack.pop() {
                            Some(mut frame) => {
                                frame.bind(name.clone(), value.clone());
                                stack.push(frame);
                                Ok(value)
                            },
                            None => Err(EvalError::Malformed),
                        },
                        Err(e) => Err(e),
                    }
                },
                _ => Err(EvalError::Malformed),
            }
        },
        Node::MathExpression { name, children } => {
            assert(trees(children@).len() == children@.len());
            if children.len() < 2 {
                return Err(EvalError::Malformed);
            }
            match operator(name.as_str()) {
                Some(op) => match eval(table, stack, &children[0]) {
                    Ok(Value::Number(a)) => fold(table, stack, op, children, a),
                    Ok(_) => Err(EvalError::TypeMismatch),
                    Err(e) => Err(e),
                },
                None => Err(EvalError::Malformed),
            }
        },
        Node::FunctionCall { name, children } => {
            assert(trees(children@).len() == children@.len());
            let callee = match table.get(name.as_str()) {
                Some(function) => function,
                None => {
                    return Err(EvalError::UndefinedFunction);
                },
            };
            if callee.params.len() != children.len() {
                return Err(EvalError::ArityMismatch);
            }
            let values = match eval_each(table, stack, children) {
                Ok(values) => values,
                Err(e) => {
                    return Err(e);
                },
            };
            if stack.len() >= MAX_DEPTH {
                return Err(EvalError::StackExhausted);
            }
            let frame = frame_of(&callee.params, &values);
            stack.push(frame);
            let r = run_body(table, stack, &callee.body);
            stack.pop();
            r
        },
        _ => Err(EvalError::Malformed),
    }
}

/// Evaluates the only child of a node that stands for its child.
fn eval_only(table: &FunctionTable, stack: &mut Vec<Frame>, children: &Vec<Node>) -> (r: Result<
    Value,
    EvalError,
>)
    ensures
        ends_as(
            old(stack)@,
            final(stack)@,
            r,
            if children@.len() == 1 {
                semantics::eval(table@, old(stack)@.len(), top(old(stack)@), children@[0]@)
            } else {
                Outcome { result: Err(EvalError::Malformed), frame: top(old(stack)@) }
            },
        ),
    decreases MAX_DEPTH - old(stack)@.len(), children, 1nat,
{
    if children.len() == 1 {
        eval(table, stack, &children[0])
    } else {
        Err(EvalError::Malformed)
    }
}

/// Folds the operands after the first into `first`, from the left.
fn fold(
    table: &FunctionTable,
    stack: &mut Vec<Frame>,
    op: Operator,
    operands: &Vec<Node>,
    first: i32,
) -> (r: Result<Value, EvalError>)
    requires
        operands@.len() >= 1,
    ensures
        ends_as(
            old(stack)@,
            final(stack)@,
            r,
            semantics::fold(
                table@,
                old(stack)@.len(),
                top(old(stack)@),
                op,
                trees(operands@),
                1,
                first,
            ),
        ),
    decreases MAX_DEPTH - old(stack)@.len(), operands, operands@.len(),
{
    let ghost goal = semantics::fold(
        table@,
        stack@.len(),
        top(stack@),
        op,
        trees(operands@),
        1,
        first,
    );
    let mut acc: i32 = first;
    let mut i: usize = 1;
    while i < operands.len()
        invariant
            1 <= i <= operands@.len(),
            below_kept(old(stack)@, stack@),
            goal == semantics::fold(
                table@,
                old(stack)@.len(),
                top(old(stack)@),
                op,
                trees(operands@),
                1,
                first,
            ),
            goal == semantics::fold(
                table@,
                stack@.len(),
                top(stack@),
                op,
                trees(operands@),
                i as nat,
                acc,
            ),
        decreases operands@.len() - i,
    {
        match eval(table, stack, &operands[i]) {
            Ok(Value::Number(b)) => match compute(op, acc, b) {
                Ok(c) => {
                    acc = c;
                },
                Err(e) => {
                    return Err(e);
                },
            },
            Ok(_) => {
                return Err(EvalError::TypeMismatch);
            },
            Err(e) => {
                return Err(e);
            },
        }
        i += 1;
    }
    Ok(Value::Number(acc))
}

/// The models of a sequence of values, in order.
pub open spec fn data(values: Seq<Value>) -> Seq<Datum> {
    Seq::new(values.len(), |i: int| values[i]@)
}

/// How the evaluation of arguments ended.
pub open spec fn each_ends_as(
    before: Seq<Frame>,
    after: Seq<Frame>,
    r: Result<Vec<Value>, EvalError>,
    outcome: semantics::Evaluated,
) -> bool {
    &&& below_kept(before, after)
    &&& top(after) == outcome.frame
    &&& match r {
        Ok(values) => outcome.result == Ok::<Seq<Datum>, EvalError>(data(values@)),
        Err(e) => outcome.result == Err::<Seq<Datum>, EvalError>(e),
    }
}

/// Evaluates the arguments of a call, from left to right.
fn eval_each(table: &FunctionTable, stack: &mut Vec<Frame>, args: &Vec<Node>) -> (r: Result<
    Vec<Value>,
    EvalError,
>)
    ensures
        each_ends_as(
            old(stack)@,
            final(stack)@,
            r,
            semantics::eval_each(
                table@,
                old(stack)@.len(),
                top(old(stack)@),
                trees(args@),
                0,
                Seq::empty(),
            ),
        ),
        r matches Ok(values) ==> values@.len() == args@.len(),
    decreases MAX_DEPTH - old(stack)@.len(), args, args@.len(),
{
    let ghost goal = semantics::eval_each(
        table@,
        stack@.len(),
        top(stack@),
        trees(args@),
        0,
        Seq::empty(),
    );
    let mut values: Vec<Value> = Vec::new();
    let mut i: usize = 0;
    assert(data(values@) =~= Seq::<Datum>::empty());
    while i < args.len()
        invariant
            i <= args@.len(),
            values@.len() == i,
            below_kept(old(stack)@, stack@),
            goal == semantics::eval_each(
                table@,
                old(stack)@.len(),
                top(old(stack)@),
                trees(args@),
                0,
                Seq::empty(),
            ),
            goal == semantics::eval_each(
                table@,
                stack@.len(),
                top(stack@),
                trees(args@),
                i as nat,
                data(values@),
            ),
        decreases args@.len() - i,
    {
        match eval(table, stack, &args[i]) {
            Ok(value) => {
                assert(data(values@.push(value)) =~= data(values@).push(value@));
                values.push(value);
            },
            Err(e) => {
                return Err(e);
            },
        }
        i += 1;
    }
    Ok(values)
}

/// The frame of a call: each parameter bound to the value of its argument.
fn frame_of(params: &Vec<String>, values: &Vec<Value>) -> (frame: Frame)
    requires
        params@.len() == values@.len(),
    ensures
        frame@ == semantics::bindings(names(params@), data(values@), values@.len()),
{
    let mut frame = Frame::new();
    let mut i: usize = 0;
    while i < params.len()
        invariant
            i <= params@.len(),
            params@.len() == values@.len(),
            frame@ == semantics::bindings(names(params@), data(values@), i as nat),
        decreases params@.len() - i,
    {
        frame.bind(params[i].clone(), values[i].clone());
        i += 1;
    }
    frame
}

/// Whether a statement ends the call it runs in.
fn is_return(node: &Node) -> (r: bool)
    ensures
        r == semantics::is_return(node@),
{
    match node {
        Node::FunctionReturn { .. } => true,
        Node::Statement { children } => {
            assert(trees(children@).len() == children@.len());
            if children.len() == 1 {
                assert(trees(children@)[0] == children@[0]@);
                match &children[0] {
                    Node::FunctionReturn { .. } => true,
                    _ => false,
                }
            } else {
                false
            }
        },
        _ => false,
    }
}

/// Runs the statements of a function in the frame on top of the stack.
fn run_body(table: &FunctionTable, stack: &mut Vec<Frame>, body: &Vec<Node>) -> (r: Result<
    Value,
    EvalError,
>)
    ensures
        ends_as(
            old(stack)@,
            final(stack)@,
            r,
            semantics::run_body(
                table@,
                old(stack)@.len(),
                top(old(stack)@),
                trees(body@),
                0,
                Err(EvalError::NoValue),
            ),
        ),
    decreases MAX_DEPTH - old(stack)@.len(), body, body@.len(),
{
    let ghost goal = semantics::run_body(
        table@,
        stack@.len(),
        top(stack@),
        trees(body@),
        0,
        Err(EvalError::NoValue),
    );
    let mut last: Result<Value, EvalError> = Err(EvalError::NoValue);
    let mut i: usize = 0;
    while i < body.len()
        invariant
            i <= body@.len(),
            below_kept(old(stack)@, stack@),
            goal == semantics::run_body(
                table@,
                old(stack)@.len(),
                top(old(stack)@),
                trees(body@),
                0,
                Err(EvalError::NoValue),
            ),
            goal == semantics::run_body(
                table@,
                stack@.len(),
                top(stack@),
                trees(body@),
                i as nat,
                result_model(last),
            ),
        decreases body@.len() - i,
    {
        let r = eval(table, stack, &body[i]);
        if r.is_err() || is_return(&body[i]) {
            return r;
        }
        last = r;
        i += 1;
    }
    last
}

/// Reads the names of a parameter list.
fn parameter_names(params: &Vec<Node>) -> (found: Option<Vec<String>>)
    ensures
        match found {
            Some(list) => semantics::parameter_names(trees(params@)) == Some(names(list@)),
            None => semantics::parameter_names(trees(params@)) is None,
        },
{
    let mut list: Vec<String> = Vec::new();
    let mut i: usize = 0;
    while i < params.len()
        invariant
            i <= params@.len(),
            list@.len() == i,
            forall|j: int| 0 <= j < i ==> (#[trigger] trees(params@)[j]) is Identifier,
            forall|j: int|
                0 <= j < i ==> list@[j]@ == (#[trigger] trees(params@)[j])->Identifier_value,
        decreases params@.len() - i,
    {
        match &params[i] {
            Node::Identifier { value } => {
                list.push(value.clone());
            },
            _ => {
                assert(!(trees(params@)[i as int] is Identifier));
                return None;
            },
        }
        i += 1;
    }
    assert(names(list@) =~= semantics::parameter_names(trees(params@))->0);
    Some(list)
}

/// Reads a function definition: the name, and what the function table is
/// to hold under it.
pub fn definition(node: &Node) -> (found: Option<(String, Function)>)
    ensures
        match found {
            Some((name, function)) => semantics::definition(node@) == Some((name@, function@)),
            None => semantics::definition(node@) is None,
        },
{
    match node {
        Node::FunctionDefine { children } => {
            assert(trees(children@).len() == children@.len());
            if children.len() != 3 {
                return None;
            }
            match (&children[0], &children[1], &children[2]) {
                (
                    Node::Identifier { value: name },
                    Node::FunctionArguments { children: params },
                    Node::FunctionStatements { children: body },
                ) => {
                    match parameter_names(params) {
                        Some(list) => Some(
                            (name.clone(), Function { params: list, body: clone_nodes(body) }),
                        ),
                        None => None,
                    }
                },
                _ => None,
            }
        },
        _ => None,
    }
}

/// A runtime: the functions that were registered, and the call stack.
pub struct Runtime {
    functions: FunctionTable,
    stack: Vec<Frame>,
}

impl Runtime {
    /// The function table.
    pub closed spec fn table(&self) -> Table {
        self.functions@
    }

    /// The call stack, the top frame last.
    pub closed spec fn frames(&self) -> Seq<Frame> {
        self.stack@
    }

    /// A runtime without functions and with an empty call stack.
    pub fn new() -> (runtime: Runtime)
        ensures
            runtime.table() == Map::<Seq<char>, Callee>::empty(),
            runtime.frames().len() == 0,
    {
        Runtime { functions: FunctionTable::new(), stack: Vec::new() }
    }

    /// Registers the function definitions among `items`, in order.
    fn load(&mut self, items: &Vec<Node>) -> (failure: Option<EvalError>)
        ensures
            final(self).frames() == old(self).frames(),
            semantics::load(old(self).table(), trees(items@), 0) == (semantics::Loaded {
                failure,
                table: final(self).table(),
            }),
    {
        let ghost goal = semantics::load(self.table(), trees(items@), 0);
        let mut i: usize = 0;
        while i < items.len()
            invariant
                i <= items@.len(),
                self.frames() == old(self).frames(),
                goal == semantics::load(old(self).table(), trees(items@), 0),
                goal == semantics::load(self.table(), trees(items@), i as nat),
            decreases items@.len() - i,
        {
            match &items[i] {
                Node::FunctionDefine { .. } => {
                    match definition(&items[i]) {
                        Some((name, function)) => {
                            self.functions.define(name, function);
                        },
                        None => {
                            return Some(EvalError::Malformed);
                        },
                    }
                },
                _ => {},
            }
            i += 1;
        }
        None
    }

    /// Runs `node`: a program has its function definitions registered and
    /// its `main` called; a function definition is registered, and yields
    /// no value; any other node is evaluated on the call stack as it is.
    pub fn run(&mut self, node: &Node) -> (r: Result<Value, EvalError>)
        ensures
            ends_as(
                old(self).frames(),
                final(self).frames(),
                r,
                semantics::run(
                    old(self).table(),
                    old(self).frames().len(),
                    top(old(self).frames()),
                    node@,
                ).outcome,
            ),
            final(self).table() == semantics::run(
                old(self).table(),
                old(self).frames().len(),
                top(old(self).frames()),
                node@,
            ).table,
    {
        match node {
            Node::Program { children } => {
                match self.load(children) {
                    Some(e) => Err(e),
                    None => {
                        let call = entry_call();
                        eval(&self.functions, &mut self.stack, &call)
                    },
                }
            },
            Node::FunctionDefine { .. } => {
                match definition(node) {
                    Some((name, function)) => {
                        self.functions.define(name, function);
                        Err(EvalError::NoValue)
                    },
                    None => Err(EvalError::Malformed),
                }
            },
            _ => eval(&self.functions, &mut self.stack, node),
        }
    }
}

/// The call of `main` without arguments.
fn entry_call() -> (call: Node)
    ensures
        call@ == semantics::entry_call(),
{
    proof {
        reveal_strlit("main");
    }
    let call = Node::FunctionCall { name: String::from_str("main"), children: Vec::new() };
    assert(call@->FunctionCall_name =~= seq!['m', 'a', 'i', 'n']);
    assert(call@->FunctionCall_children =~= Seq::<Tree>::empty());
    call
}

/// Runs a program from nothing: in a new runtime, `node` is run, and `main`
/// is called. A program calls its `main` itself; after any other node the
/// call is made on what the node left in the function table.
pub fn run(node: &Node) -> (r: Result<Value, EvalError>)
    ensures
        result_model(r) == semantics::start(node@),
        crate::shape::is_program(node@) ==> r != Err::<Value, EvalError>(EvalError::Malformed)
            && r != Err::<Value, EvalError>(EvalError::NoValue),
{
    proof {
        if crate::shape::is_program(node@) {
            crate::safety::lemma_program_runs_clean(node@);
        }
    }
    let mut runtime = Runtime::new();
    let first = runtime.run(node);
    match node {
        Node::Program { .. } => first,
        _ => {
            let call = entry_call();
            runtime.run(&call)
        },
    }
}

} // verus!
