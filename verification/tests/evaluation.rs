use mini_script::node::Node;
use mini_script::runtime::{run, Runtime};
use mini_script::value::{EvalError, Value, MAX_DEPTH};

fn number(value: i32) -> Node {
    Node::Number { value }
}

fn name(text: &str) -> Node {
    Node::Identifier { value: text.to_string() }
}

fn math(sign: &str, children: Vec<Node>) -> Node {
    Node::MathExpression { name: sign.to_string(), children }
}

fn call(function: &str, children: Vec<Node>) -> Node {
    Node::FunctionCall { name: function.to_string(), children }
}

fn expr(child: Node) -> Node {
    Node::Expression { children: vec![child] }
}

fn stmt(child: Node) -> Node {
    Node::Statement { children: vec![child] }
}

fn ret(value: Node) -> Node {
    stmt(Node::FunctionReturn { children: vec![expr(value)] })
}

fn bind(variable: &str, value: Node) -> Node {
    stmt(Node::VariableDefine { children: vec![name(variable), expr(value)] })
}

fn define(function: &str, params: Vec<&str>, body: Vec<Node>) -> Node {
    Node::FunctionDefine {
        children: vec![
            name(function),
            Node::FunctionArguments { children: params.into_iter().map(name).collect() },
            Node::FunctionStatements { children: body },
        ],
    }
}

fn program(definitions: Vec<Node>) -> Node {
    Node::Program { children: definitions }
}

#[test]
fn number_evaluates_to_itself() {
    let mut runtime = Runtime::new();
    assert_eq!(runtime.run(&number(7)), Ok(Value::Number(7)));
}

#[test]
fn bool_and_string_evaluate_to_themselves() {
    let mut runtime = Runtime::new();
    assert_eq!(runtime.run(&Node::Bool { value: true }), Ok(Value::Bool(true)));
    assert_eq!(
        runtime.run(&Node::String { value: "hi".to_string() }),
        Ok(Value::String("hi".to_string()))
    );
}

#[test]
fn chain_folds_from_the_left() {
    let mut runtime = Runtime::new();
    let tree = math("-", vec![number(10), number(4), number(3)]);
    assert_eq!(runtime.run(&tree), Ok(Value::Number(3)));
}

#[test]
fn the_four_operators() {
    let mut runtime = Runtime::new();
    assert_eq!(runtime.run(&math("+", vec![number(6), number(3)])), Ok(Value::Number(9)));
    assert_eq!(runtime.run(&math("-", vec![number(6), number(3)])), Ok(Value::Number(3)));
    assert_eq!(runtime.run(&math("*", vec![number(6), number(3)])), Ok(Value::Number(18)));
    assert_eq!(runtime.run(&math("/", vec![number(7), number(2)])), Ok(Value::Number(3)));
}

#[test]
fn division_rounds_toward_zero() {
    let mut runtime = Runtime::new();
    let minus_seven = math("-", vec![number(0), number(7)]);
    assert_eq!(runtime.run(&math("/", vec![minus_seven, number(2)])), Ok(Value::Number(-3)));
}

#[test]
fn arithmetic_wraps_around() {
    let mut runtime = Runtime::new();
    assert_eq!(
        runtime.run(&math("+", vec![number(i32::MAX), number(1)])),
        Ok(Value::Number(i32::MIN))
    );
    assert_eq!(
        runtime.run(&math("*", vec![number(65536), number(65536)])),
        Ok(Value::Number(0))
    );
    let min = math("-", vec![number(0), number(i32::MAX), number(1)]);
    let minus_one = math("-", vec![number(0), number(1)]);
    assert_eq!(runtime.run(&math("/", vec![min, minus_one])), Ok(Value::Number(i32::MIN)));
}

#[test]
fn division_by_zero_fails() {
    let mut runtime = Runtime::new();
    assert_eq!(
        runtime.run(&math("/", vec![number(1), number(0)])),
        Err(EvalError::DivisionByZero)
    );
}

#[test]
fn arithmetic_on_a_string_is_a_type_mismatch() {
    let mut runtime = Runtime::new();
    let text = Node::String { value: "a".to_string() };
    assert_eq!(runtime.run(&math("+", vec![number(1), text])), Err(EvalError::TypeMismatch));
    assert_eq!(
        runtime.run(&math("+", vec![Node::Bool { value: true }, number(1)])),
        Err(EvalError::TypeMismatch)
    );
}

#[test]
fn malformed_trees_are_reported() {
    let mut runtime = Runtime::new();
    assert_eq!(runtime.run(&math("+", vec![number(1)])), Err(EvalError::Malformed));
    assert_eq!(runtime.run(&math("%", vec![number(1), number(2)])), Err(EvalError::Malformed));
    assert_eq!(runtime.run(&Node::Expression { children: vec![] }), Err(EvalError::Malformed));
    assert_eq!(
        runtime.run(&Node::FunctionArguments { children: vec![] }),
        Err(EvalError::Malformed)
    );
    assert_eq!(
        runtime.run(&Node::VariableDefine { children: vec![name("x"), number(1)] }),
        Err(EvalError::Malformed)
    );
}

#[test]
fn identifier_without_frame_is_undefined() {
    let mut runtime = Runtime::new();
    assert_eq!(runtime.run(&name("x")), Err(EvalError::UndefinedVariable));
}

#[test]
fn run_without_main_is_undefined_function() {
    assert_eq!(run(&number(1)), Err(EvalError::UndefinedFunction));
    assert_eq!(run(&program(vec![])), Err(EvalError::UndefinedFunction));
}

#[test]
fn definition_yields_no_value_and_is_registered() {
    let mut runtime = Runtime::new();
    let main = define("main", vec![], vec![ret(number(5))]);
    assert_eq!(runtime.run(&main), Err(EvalError::NoValue));
    assert_eq!(runtime.run(&call("main", vec![])), Ok(Value::Number(5)));
    assert_eq!(run(&main), Ok(Value::Number(5)));
}

#[test]
fn program_calls_main() {
    let tree = program(vec![define("main", vec![], vec![ret(number(42))])]);
    assert_eq!(run(&tree), Ok(Value::Number(42)));
}

#[test]
fn later_definition_wins() {
    let tree = program(vec![
        define("main", vec![], vec![ret(number(1))]),
        define("main", vec![], vec![ret(number(2))]),
    ]);
    assert_eq!(run(&tree), Ok(Value::Number(2)));
}

#[test]
fn definitions_are_registered_before_main_runs() {
    let tree = program(vec![
        define("main", vec![], vec![ret(call("later", vec![]))]),
        define("later", vec![], vec![ret(number(3))]),
    ]);
    assert_eq!(run(&tree), Ok(Value::Number(3)));
}

#[test]
fn malformed_definition_stops_the_program() {
    let broken = Node::FunctionDefine { children: vec![name("f")] };
    let tree = program(vec![broken, define("main", vec![], vec![ret(number(1))])]);
    assert_eq!(run(&tree), Err(EvalError::Malformed));
}

#[test]
fn arguments_are_bound_by_position() {
    let tree = program(vec![
        define("sub", vec!["a", "b"], vec![ret(math("-", vec![name("a"), name("b")]))]),
        define("main", vec![], vec![ret(call("sub", vec![expr(number(10)), expr(number(4))]))]),
    ]);
    assert_eq!(run(&tree), Ok(Value::Number(6)));
}

#[test]
fn callee_does_not_see_the_callers_variables() {
    let tree = program(vec![
        define("f", vec![], vec![bind("x", number(1)), ret(name("x"))]),
        define("main", vec![], vec![bind("x", number(99)), ret(call("f", vec![]))]),
    ]);
    assert_eq!(run(&tree), Ok(Value::Number(1)));
    let leak = program(vec![
        define("f", vec![], vec![ret(name("x"))]),
        define("main", vec![], vec![bind("x", number(99)), ret(call("f", vec![]))]),
    ]);
    assert_eq!(run(&leak), Err(EvalError::UndefinedVariable));
}

#[test]
fn caller_keeps_its_variables_after_a_call() {
    let tree = program(vec![
        define("f", vec![], vec![bind("x", number(1)), ret(name("x"))]),
        define(
            "main",
            vec![],
            vec![
                bind("x", number(99)),
                bind("y", call("f", vec![])),
                ret(math("+", vec![name("x"), name("y")])),
            ],
        ),
    ]);
    assert_eq!(run(&tree), Ok(Value::Number(100)));
}

#[test]
fn statements_after_a_return_do_not_run() {
    let tree = program(vec![define(
        "main",
        vec![],
        vec![ret(number(1)), stmt(expr(math("/", vec![number(1), number(0)])))],
    )]);
    assert_eq!(run(&tree), Ok(Value::Number(1)));
}

#[test]
fn first_error_ends_the_call() {
    let tree = program(vec![define(
        "main",
        vec![],
        vec![stmt(expr(math("/", vec![number(1), number(0)]))), ret(number(1))],
    )]);
    assert_eq!(run(&tree), Err(EvalError::DivisionByZero));
}

#[test]
fn body_without_return_yields_its_last_value() {
    let tree = program(vec![define("main", vec![], vec![bind("x", number(8))])]);
    assert_eq!(run(&tree), Ok(Value::Number(8)));
    let empty = program(vec![define("main", vec![], vec![])]);
    assert_eq!(run(&empty), Err(EvalError::NoValue));
}

#[test]
fn rebinding_replaces_the_value() {
    let tree = program(vec![define(
        "main",
        vec![],
        vec![bind("x", number(1)), bind("x", number(2)), ret(name("x"))],
    )]);
    assert_eq!(run(&tree), Ok(Value::Number(2)));
}

#[test]
fn undefined_function_is_reported() {
    let tree = program(vec![define("main", vec![], vec![ret(call("g", vec![]))])]);
    assert_eq!(run(&tree), Err(EvalError::UndefinedFunction));
    let mut runtime = Runtime::new();
    assert_eq!(
        runtime.run(&call("g", vec![expr(name("unbound"))])),
        Err(EvalError::UndefinedFunction)
    );
}

#[test]
fn undefined_variable_is_reported() {
    let tree = program(vec![define("main", vec![], vec![ret(name("y"))])]);
    assert_eq!(run(&tree), Err(EvalError::UndefinedVariable));
}

#[test]
fn arity_mismatch_is_reported() {
    let extra = program(vec![
        define("f", vec![], vec![ret(number(1))]),
        define("main", vec![], vec![ret(call("f", vec![expr(number(2))]))]),
    ]);
    assert_eq!(run(&extra), Err(EvalError::ArityMismatch));
    let missing = program(vec![
        define("f", vec!["a"], vec![ret(name("a"))]),
        define("main", vec![], vec![ret(call("f", vec![]))]),
    ]);
    assert_eq!(run(&missing), Err(EvalError::ArityMismatch));
    let main_with_parameter = program(vec![define("main", vec!["a"], vec![ret(name("a"))])]);
    assert_eq!(run(&main_with_parameter), Err(EvalError::ArityMismatch));
}

#[test]
fn unbounded_recursion_exhausts_the_stack() {
    let tree = program(vec![define("main", vec![], vec![ret(call("main", vec![]))])]);
    assert_eq!(run(&tree), Err(EvalError::StackExhausted));
}

#[test]
fn recursion_up_to_the_limit_succeeds() {
    // down(n) calls itself n times: n + 1 frames at the deepest point
    let body = vec![ret(call("down", vec![expr(math("-", vec![name("n"), number(1)]))]))];
    let mut runtime = Runtime::new();
    assert_eq!(runtime.run(&define("down", vec!["n"], body)), Err(EvalError::NoValue));
    // without a base case every chain ends in exhaustion, whatever n is
    assert_eq!(
        runtime.run(&call("down", vec![expr(number(3))])),
        Err(EvalError::StackExhausted)
    );
    assert_eq!(MAX_DEPTH, 128);
}

#[test]
fn stack_is_empty_again_after_a_failed_call() {
    let mut runtime = Runtime::new();
    let f = define("f", vec![], vec![bind("x", number(1)), ret(name("missing"))]);
    assert_eq!(runtime.run(&f), Err(EvalError::NoValue));
    assert_eq!(runtime.run(&call("f", vec![])), Err(EvalError::UndefinedVariable));
    // no frame is left: the variable of the failed call cannot be seen
    assert_eq!(runtime.run(&name("x")), Err(EvalError::UndefinedVariable));
    assert_eq!(
        runtime.run(&Node::VariableDefine { children: vec![name("x"), number(1)] }),
        Err(EvalError::Malformed)
    );
}

#[test]
fn clone_keeps_the_tree() {
    let tree = program(vec![define("main", vec!["a"], vec![ret(math("+", vec![name("a"), number(1)]))])]);
    assert_eq!(format!("{:?}", tree.clone()), format!("{:?}", tree));
    let value = Value::String("text".to_string());
    assert_eq!(value.clone(), value);
}
