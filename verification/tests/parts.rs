use mini_script::grammar::{ParseError, Tier};
use mini_script::node::clone_nodes;
use mini_script::parser::{expression as parse_expression, statement as parse_statement, Node};
use mini_script::runtime::{definition, eval, Frame, Function, FunctionTable, Value};
use mini_script::value::{compute, operator, EvalError, Operator};

fn leaf(value: i32) -> Node {
    Node::Number { value }
}

fn ident(text: &str) -> Node {
    Node::Identifier { value: text.to_string() }
}

#[test]
fn frame_binds_and_finds() {
    let mut frame = Frame::new();
    assert_eq!(frame.get("x"), None);
    frame.bind("x".to_string(), Value::Number(1));
    frame.bind("y".to_string(), Value::Bool(true));
    assert_eq!(frame.get("x"), Some(Value::Number(1)));
    assert_eq!(frame.get("y"), Some(Value::Bool(true)));
    frame.bind("x".to_string(), Value::String("s".to_string()));
    assert_eq!(frame.get("x"), Some(Value::String("s".to_string())));
    assert_eq!(frame.get("z"), None);
}

#[test]
fn table_defines_and_finds() {
    let mut table = FunctionTable::new();
    assert!(table.get("f").is_none());
    table.define("f".to_string(), Function { params: vec!["a".to_string()], body: vec![leaf(1)] });
    let found = table.get("f").expect("f is defined");
    assert_eq!(found.params, vec!["a".to_string()]);
    assert_eq!(found.body.len(), 1);
    table.define("f".to_string(), Function { params: vec![], body: vec![leaf(1), leaf(2)] });
    let found = table.get("f").expect("f is defined");
    assert_eq!(found.params.len(), 0);
    assert_eq!(found.body.len(), 2);
    assert!(table.get("g").is_none());
}

#[test]
fn definition_reads_name_parameters_and_body() {
    let node = Node::FunctionDefine {
        children: vec![
            ident("f"),
            Node::FunctionArguments { children: vec![ident("a"), ident("b")] },
            Node::FunctionStatements { children: vec![leaf(1)] },
        ],
    };
    let (name, function) = definition(&node).expect("a definition");
    assert_eq!(name, "f");
    assert_eq!(function.params, vec!["a".to_string(), "b".to_string()]);
    assert_eq!(format!("{:?}", function.body), "[Number { value: 1 }]");
}

#[test]
fn definition_of_the_wrong_shape_is_none() {
    assert!(definition(&leaf(1)).is_none());
    assert!(definition(&Node::FunctionDefine { children: vec![] }).is_none());
    let number_as_parameter = Node::FunctionDefine {
        children: vec![
            ident("f"),
            Node::FunctionArguments { children: vec![leaf(1)] },
            Node::FunctionStatements { children: vec![leaf(1)] },
        ],
    };
    assert!(definition(&number_as_parameter).is_none());
    let out_of_order = Node::FunctionDefine {
        children: vec![
            ident("f"),
            Node::FunctionStatements { children: vec![leaf(1)] },
            Node::FunctionArguments { children: vec![] },
        ],
    };
    assert!(definition(&out_of_order).is_none());
}

#[test]
fn operator_reads_the_four_signs() {
    assert_eq!(operator("+"), Some(Operator::Add));
    assert_eq!(operator("-"), Some(Operator::Subtract));
    assert_eq!(operator("*"), Some(Operator::Multiply));
    assert_eq!(operator("/"), Some(Operator::Divide));
    assert_eq!(operator("%"), None);
    assert_eq!(operator(""), None);
    assert_eq!(operator("++"), None);
}

#[test]
fn compute_gives_exact_values() {
    assert_eq!(compute(Operator::Add, 2, 3), Ok(5));
    assert_eq!(compute(Operator::Subtract, 2, 3), Ok(-1));
    assert_eq!(compute(Operator::Multiply, -4, 3), Ok(-12));
    assert_eq!(compute(Operator::Divide, 7, 2), Ok(3));
    assert_eq!(compute(Operator::Divide, -7, 2), Ok(-3));
    assert_eq!(compute(Operator::Divide, 7, -2), Ok(-3));
    assert_eq!(compute(Operator::Divide, -7, -2), Ok(3));
    assert_eq!(compute(Operator::Divide, 7, 0), Err(EvalError::DivisionByZero));
    assert_eq!(compute(Operator::Add, i32::MAX, 1), Ok(i32::MIN));
    assert_eq!(compute(Operator::Subtract, i32::MIN, 1), Ok(i32::MAX));
    assert_eq!(compute(Operator::Multiply, i32::MAX, 2), Ok(-2));
    assert_eq!(compute(Operator::Divide, i32::MIN, -1), Ok(i32::MIN));
}

#[test]
fn eval_changes_the_top_frame_only() {
    let table = FunctionTable::new();
    let mut below = Frame::new();
    below.bind("x".to_string(), Value::Number(1));
    let mut stack = vec![below, Frame::new()];
    let bind = Node::VariableDefine { children: vec![ident("x"), leaf(2)] };
    assert_eq!(eval(&table, &mut stack, &bind), Ok(Value::Number(2)));
    assert_eq!(stack.len(), 2);
    assert_eq!(stack[0].get("x"), Some(Value::Number(1)));
    assert_eq!(stack[1].get("x"), Some(Value::Number(2)));
    assert_eq!(eval(&table, &mut stack, &ident("x")), Ok(Value::Number(2)));
}

#[test]
fn eval_pops_the_frame_of_a_call() {
    let mut table = FunctionTable::new();
    let body = vec![
        Node::Statement {
            children: vec![Node::VariableDefine { children: vec![ident("y"), ident("a")] }],
        },
        Node::Statement { children: vec![Node::FunctionReturn { children: vec![ident("missing")] }] },
    ];
    table.define("f".to_string(), Function { params: vec!["a".to_string()], body });
    let mut stack = vec![Frame::new()];
    let call = Node::FunctionCall { name: "f".to_string(), children: vec![leaf(5)] };
    assert_eq!(eval(&table, &mut stack, &call), Err(EvalError::UndefinedVariable));
    assert_eq!(stack.len(), 1);
    assert_eq!(stack[0].get("y"), None);
    assert_eq!(stack[0].get("a"), None);
}

#[test]
fn later_parameter_of_the_same_name_wins() {
    let mut table = FunctionTable::new();
    let body = vec![Node::FunctionReturn { children: vec![ident("a")] }];
    table.define(
        "f".to_string(),
        Function { params: vec!["a".to_string(), "a".to_string()], body },
    );
    let mut stack = Vec::new();
    let call = Node::FunctionCall { name: "f".to_string(), children: vec![leaf(1), leaf(2)] };
    assert_eq!(eval(&table, &mut stack, &call), Ok(Value::Number(2)));
    assert!(stack.is_empty());
}

#[test]
fn arguments_are_evaluated_from_left_to_right() {
    let mut table = FunctionTable::new();
    table.define(
        "f".to_string(),
        Function { params: vec!["a".to_string(), "b".to_string()], body: vec![ident("a")] },
    );
    let mut stack = vec![Frame::new()];
    let division = Node::MathExpression { name: "/".to_string(), children: vec![leaf(1), leaf(0)] };
    let call = Node::FunctionCall {
        name: "f".to_string(),
        children: vec![ident("unbound"), division],
    };
    assert_eq!(eval(&table, &mut stack, &call), Err(EvalError::UndefinedVariable));
}

#[test]
fn clone_nodes_copies_every_node() {
    let nodes = vec![leaf(1), ident("x"), Node::Expression { children: vec![leaf(2)] }];
    assert_eq!(format!("{:?}", clone_nodes(&nodes)), format!("{:?}", nodes));
    assert_eq!(clone_nodes(&Vec::new()).len(), 0);
}

#[test]
fn what_is_left_is_the_end_of_the_input() {
    for input in ["1 + 2 rest", "f(1, 2)) tail", "(a*b)-c;", "\"s\" + 1", "true false", "x"] {
        let (rest, _) = parse_expression(input).expect("an expression");
        assert!(input.ends_with(rest));
        assert!(rest.len() < input.len());
    }
    for input in ["let x = 1 return x", "return f() }", "g(1)\nh(2)"] {
        let (rest, _) = parse_statement(input).expect("a statement");
        assert!(input.ends_with(rest));
        assert!(rest.len() < input.len());
    }
}

#[test]
fn tiers_and_errors_can_be_compared() {
    assert_ne!(Tier::Additive, Tier::Multiplicative);
    assert_ne!(ParseError::NoMatch, ParseError::Overflow);
}
