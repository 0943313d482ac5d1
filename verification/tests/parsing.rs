use mini_script::grammar::ParseError;
use mini_script::node::Node;
use mini_script::parser::{
    arguments, boolean, comment, expression, function_call, function_definition,
    function_return, identifier, l1, l1_infix, l2, l2_infix, l3, l3_infix, l4, math_expression,
    number, other_arg, other_parameter, parameters, parenthetical_expression, parse, program,
    statement, string, variable_define,
};
use mini_script::runtime::{run, Runtime};
use mini_script::value::{EvalError, Value};

fn shown(result: Result<(&str, Node), ParseError>) -> String {
    match result {
        Ok((rest, node)) => format!("{:?} then {:?}", node, rest),
        Err(e) => format!("{:?}", e),
    }
}

fn value_of(source: &str) -> Result<Value, EvalError> {
    let (rest, node) = expression(source).expect("an expression");
    assert_eq!(rest, "");
    Runtime::new().run(&node)
}

fn run_source(source: &str) -> Result<Value, EvalError> {
    run(&parse(source).expect("a program"))
}

#[test]
fn identifier_takes_letters_and_digits() {
    assert_eq!(shown(identifier("abc1 def")), "Identifier { value: \"abc1\" } then \" def\"");
    assert_eq!(shown(identifier("x")), "Identifier { value: \"x\" } then \"\"");
    assert_eq!(identifier("").err(), Some(ParseError::NoMatch));
    assert_eq!(identifier("+a").err(), Some(ParseError::NoMatch));
    assert_eq!(shown(identifier("a_b")), "Identifier { value: \"a\" } then \"_b\"");
    assert_eq!(shown(identifier("héllo")), "Identifier { value: \"h\" } then \"éllo\"");
}

#[test]
fn number_reads_base_ten() {
    assert_eq!(shown(number("0")), "Number { value: 0 } then \"\"");
    assert_eq!(shown(number("123abc")), "Number { value: 123 } then \"abc\"");
    assert_eq!(shown(number("007")), "Number { value: 7 } then \"\"");
    assert_eq!(shown(number("2147483647")), "Number { value: 2147483647 } then \"\"");
    assert_eq!(number("").err(), Some(ParseError::NoMatch));
    assert_eq!(number("a1").err(), Some(ParseError::NoMatch));
    assert_eq!(number("-1").err(), Some(ParseError::NoMatch));
}

#[test]
fn number_round_trips_decimal_text() {
    for n in [0, 1, 9, 10, 99, 100, 4096, 65535, 1000000007, i32::MAX] {
        let text = n.to_string();
        assert_eq!(shown(number(&text)), format!("Number {{ value: {} }} then \"\"", n));
    }
}

#[test]
fn number_that_overflows_fails() {
    assert_eq!(number("2147483648").err(), Some(ParseError::Overflow));
    assert_eq!(number("99999999999999999999999999").err(), Some(ParseError::Overflow));
    assert_eq!(number("4294967296 ").err(), Some(ParseError::Overflow));
    assert_eq!(shown(number("00000000000000000000000000001")), "Number { value: 1 } then \"\"");
}

#[test]
fn overflow_ends_the_whole_parse() {
    assert_eq!(expression("1 + 2147483648").err(), Some(ParseError::Overflow));
    assert_eq!(l4("2147483648").err(), Some(ParseError::Overflow));
    assert_eq!(statement("let x = f(3000000000)").err(), Some(ParseError::Overflow));
    assert_eq!(parse("fn main() { return 3000000000 }").err(), Some(ParseError::Overflow));
}

#[test]
fn boolean_recognizes_two_words() {
    assert_eq!(shown(boolean("true")), "Bool { value: true } then \"\"");
    assert_eq!(shown(boolean("false)")), "Bool { value: false } then \")\"");
    assert_eq!(boolean("trueness").err(), Some(ParseError::NoMatch));
    assert_eq!(boolean("True").err(), Some(ParseError::NoMatch));
    assert_eq!(boolean("").err(), Some(ParseError::NoMatch));
}

#[test]
fn string_takes_what_is_between_quotes() {
    assert_eq!(shown(string("\"hi there\" rest")), "String { value: \"hi there\" } then \" rest\"");
    assert_eq!(shown(string("\"\"")), "String { value: \"\" } then \"\"");
    assert_eq!(shown(string("\"a\\n\"")), "String { value: \"a\\\\n\" } then \"\"");
    assert_eq!(string("\"open").err(), Some(ParseError::NoMatch));
    assert_eq!(string("\"").err(), Some(ParseError::NoMatch));
    assert_eq!(string("plain").err(), Some(ParseError::NoMatch));
}

#[test]
fn comment_runs_to_the_end_of_the_line() {
    assert_eq!(shown(comment("// note\nnext")), "String { value: \" note\" } then \"\\nnext\"");
    assert_eq!(shown(comment("//")), "String { value: \"\" } then \"\"");
    assert_eq!(comment("/ x").err(), Some(ParseError::NoMatch));
}

#[test]
fn left_associativity() {
    assert_eq!(value_of("1 + 2 - 3"), Ok(Value::Number(0)));
    assert_eq!(value_of("10 - 4 - 3"), Ok(Value::Number(3)));
    assert_eq!(value_of("100 / 10 / 5"), Ok(Value::Number(2)));
    assert_eq!(
        shown(l1("a - b + c")),
        "MathExpression { name: \"+\", children: [MathExpression { name: \"-\", children: \
         [Identifier { value: \"a\" }, Identifier { value: \"b\" }] }, Identifier { value: \"c\" }] } \
         then \"\""
    );
}

#[test]
fn precedence() {
    assert_eq!(value_of("1 + 2 * 3"), Ok(Value::Number(7)));
    assert_eq!(value_of("2 * 3 + 1"), Ok(Value::Number(7)));
    assert_eq!(value_of("8 - 6 / 2"), Ok(Value::Number(5)));
}

#[test]
fn parenthesization() {
    assert_eq!(value_of("(1 + 2) * 3"), Ok(Value::Number(9)));
    assert_eq!(value_of("( 1 + 2 ) * 3"), Ok(Value::Number(9)));
    assert_eq!(value_of("2 * (3 + (4 - 1))"), Ok(Value::Number(12)));
    assert_eq!(
        shown(parenthetical_expression("(7)")),
        "Expression { children: [Number { value: 7 }] } then \"\""
    );
    assert_eq!(parenthetical_expression("(7").err(), Some(ParseError::NoMatch));
    assert_eq!(parenthetical_expression("7)").err(), Some(ParseError::NoMatch));
}

#[test]
fn whitespace_around_operators_is_optional() {
    assert_eq!(value_of("1+2*3"), Ok(Value::Number(7)));
    assert_eq!(value_of("1   +   2"), Ok(Value::Number(3)));
    assert_eq!(shown(expression("1 + 2 ")), "Expression { children: [MathExpression { name: \"+\", children: [Number { value: 1 }, Number { value: 2 }] }] } then \" \"");
}

#[test]
fn negation_is_zero_minus_the_operand() {
    assert_eq!(value_of("-5"), Ok(Value::Number(-5)));
    assert_eq!(value_of("1 - -2"), Ok(Value::Number(3)));
    assert_eq!(value_of("-2 * 3"), Ok(Value::Number(-6)));
    assert_eq!(value_of("- - 4"), Ok(Value::Number(4)));
    assert_eq!(
        shown(l3("-x")),
        "MathExpression { name: \"-\", children: [Number { value: 0 }, Identifier { value: \"x\" }] } then \"\""
    );
    assert_eq!(
        shown(l3_infix("-x")),
        "MathExpression { name: \"-\", children: [Identifier { value: \"x\" }] } then \"\""
    );
    assert_eq!(l3_infix("x").err(), Some(ParseError::NoMatch));
}

#[test]
fn infix_rules_build_pending_operators() {
    assert_eq!(
        shown(l1_infix(" + 2 rest")),
        "MathExpression { name: \"+\", children: [Number { value: 2 }] } then \" rest\""
    );
    assert_eq!(
        shown(l1_infix("-2*3")),
        "MathExpression { name: \"-\", children: [MathExpression { name: \"*\", children: [Number { value: 2 }, Number { value: 3 }] }] } then \"\""
    );
    assert_eq!(l1_infix("* 2").err(), Some(ParseError::NoMatch));
    assert_eq!(
        shown(l2_infix(" / 4")),
        "MathExpression { name: \"/\", children: [Number { value: 4 }] } then \"\""
    );
    assert_eq!(l2_infix("+ 4").err(), Some(ParseError::NoMatch));
    assert_eq!(l2_infix("* ").err(), Some(ParseError::NoMatch));
}

#[test]
fn tiers_pass_a_single_operand_through() {
    assert_eq!(shown(l1("5")), "Number { value: 5 } then \"\"");
    assert_eq!(shown(l2("5 + 1")), "Number { value: 5 } then \" + 1\"");
    assert_eq!(shown(math_expression("x")), "Identifier { value: \"x\" } then \"\"");
    assert_eq!(shown(l2("2*x")), "MathExpression { name: \"*\", children: [Number { value: 2 }, Identifier { value: \"x\" }] } then \"\"");
}

#[test]
fn atom_tries_its_alternatives_in_order() {
    assert_eq!(shown(l4("f(1)")), "FunctionCall { name: \"f\", children: [Expression { children: [Number { value: 1 }] }] } then \"\"");
    assert_eq!(shown(l4("12ab")), "Number { value: 12 } then \"ab\"");
    assert_eq!(shown(l4("ab12")), "Identifier { value: \"ab12\" } then \"\"");
    assert_eq!(shown(l4("(x)")), "Expression { children: [Identifier { value: \"x\" }] } then \"\"");
    assert_eq!(l4("+").err(), Some(ParseError::NoMatch));
    assert_eq!(l4("").err(), Some(ParseError::NoMatch));
}

#[test]
fn call_syntax() {
    assert_eq!(shown(function_call("f()")), "FunctionCall { name: \"f\", children: [] } then \"\"");
    assert_eq!(shown(function_call("f( )")), "FunctionCall { name: \"f\", children: [] } then \"\"");
    assert_eq!(
        shown(function_call("add(1, x)")),
        "FunctionCall { name: \"add\", children: [Expression { children: [Number { value: 1 }] }, Expression { children: [Identifier { value: \"x\" }] }] } then \"\""
    );
    assert_eq!(
        shown(function_call("f( g(2) ,3 )+1")),
        "FunctionCall { name: \"f\", children: [Expression { children: [FunctionCall { name: \"g\", children: [Expression { children: [Number { value: 2 }] }] }] }, Expression { children: [Number { value: 3 }] }] } then \"+1\""
    );
    assert_eq!(function_call("f (1)").err(), Some(ParseError::NoMatch));
    assert_eq!(function_call("f(1").err(), Some(ParseError::NoMatch));
    assert_eq!(function_call("f(1,)").err(), Some(ParseError::NoMatch));
    assert_eq!(function_call("f").err(), Some(ParseError::NoMatch));
}

#[test]
fn arguments_are_separated_by_commas() {
    assert_eq!(
        shown(arguments("1 , 2)")),
        "FunctionArguments { children: [Expression { children: [Number { value: 1 }] }, Expression { children: [Number { value: 2 }] }] } then \")\""
    );
    assert_eq!(shown(other_arg(" , true")), "Expression { children: [Bool { value: true }] } then \"\"");
    assert_eq!(other_arg("true").err(), Some(ParseError::NoMatch));
    assert_eq!(arguments(")").err(), Some(ParseError::NoMatch));
}

#[test]
fn expression_wraps_its_child() {
    assert_eq!(shown(expression("true")), "Expression { children: [Bool { value: true }] } then \"\"");
    assert_eq!(shown(expression("\"s\"")), "Expression { children: [String { value: \"s\" }] } then \"\"");
    assert_eq!(shown(expression("truly")), "Expression { children: [Identifier { value: \"truly\" }] } then \"\"");
    assert_eq!(expression("").err(), Some(ParseError::NoMatch));
    assert_eq!(expression("\"open").err(), Some(ParseError::NoMatch));
}

#[test]
fn variable_declaration() {
    assert_eq!(
        shown(variable_define("let x = 1")),
        "VariableDefine { children: [Identifier { value: \"x\" }, Expression { children: [Number { value: 1 }] }] } then \"\""
    );
    assert_eq!(
        shown(variable_define("let   x=1 return")),
        "VariableDefine { children: [Identifier { value: \"x\" }, Expression { children: [Number { value: 1 }] }] } then \" return\""
    );
    assert_eq!(variable_define("letx = 1").err(), Some(ParseError::NoMatch));
    assert_eq!(variable_define("let x 1").err(), Some(ParseError::NoMatch));
    assert_eq!(variable_define("let x =").err(), Some(ParseError::NoMatch));
    assert_eq!(variable_define("x = 1").err(), Some(ParseError::NoMatch));
}

#[test]
fn return_statement() {
    assert_eq!(
        shown(function_return("return x")),
        "FunctionReturn { children: [Expression { children: [Identifier { value: \"x\" }] }] } then \"\""
    );
    assert_eq!(function_return("returnx").err(), Some(ParseError::NoMatch));
    assert_eq!(function_return("return").err(), Some(ParseError::NoMatch));
    assert_eq!(function_return("x").err(), Some(ParseError::NoMatch));
}

#[test]
fn statement_tries_declaration_then_return_then_expression() {
    assert_eq!(
        shown(statement("let x = 1")),
        "Statement { children: [VariableDefine { children: [Identifier { value: \"x\" }, Expression { children: [Number { value: 1 }] }] }] } then \"\""
    );
    assert_eq!(
        shown(statement("return 1")),
        "Statement { children: [FunctionReturn { children: [Expression { children: [Number { value: 1 }] }] }] } then \"\""
    );
    assert_eq!(
        shown(statement("f()")),
        "Statement { children: [Expression { children: [FunctionCall { name: \"f\", children: [] }] }] } then \"\""
    );
    assert_eq!(
        shown(statement("letter")),
        "Statement { children: [Expression { children: [Identifier { value: \"letter\" }] }] } then \"\""
    );
    assert_eq!(statement("}").err(), Some(ParseError::NoMatch));
}

#[test]
fn parameters_are_bare_identifiers() {
    assert_eq!(
        shown(parameters("a, b ,c)")),
        "FunctionArguments { children: [Identifier { value: \"a\" }, Identifier { value: \"b\" }, Identifier { value: \"c\" }] } then \")\""
    );
    assert_eq!(shown(other_parameter(",b")), "Identifier { value: \"b\" } then \"\"");
    assert_eq!(other_parameter("b").err(), Some(ParseError::NoMatch));
    assert_eq!(parameters(")").err(), Some(ParseError::NoMatch));
}

#[test]
fn definition_holds_name_parameters_and_statements() {
    assert_eq!(
        shown(function_definition("fn f(a) { return a }")),
        "FunctionDefine { children: [Identifier { value: \"f\" }, FunctionArguments { children: [Identifier { value: \"a\" }] }, FunctionStatements { children: [Statement { children: [FunctionReturn { children: [Expression { children: [Identifier { value: \"a\" }] }] }] }] }] } then \"\""
    );
    assert_eq!(function_definition("fn f() { }").err(), Some(ParseError::NoMatch));
    assert_eq!(function_definition("fn f() { return 1").err(), Some(ParseError::NoMatch));
    assert_eq!(function_definition("fn f(1+2) { return 1 }").err(), Some(ParseError::NoMatch));
    assert_eq!(function_definition("fnf() { return 1 }").err(), Some(ParseError::NoMatch));
    assert_eq!(function_definition("f() { return 1 }").err(), Some(ParseError::NoMatch));
}

#[test]
fn program_takes_the_whole_text() {
    let (rest, node) = program("  fn main() { return 1 }\n\n").expect("a program");
    assert_eq!(rest, "");
    assert_eq!(
        format!("{:?}", node),
        "Program { children: [FunctionDefine { children: [Identifier { value: \"main\" }, FunctionArguments { children: [] }, FunctionStatements { children: [Statement { children: [FunctionReturn { children: [Expression { children: [Number { value: 1 }] }] }] }] }] }] }"
    );
    assert_eq!(program("").err(), Some(ParseError::NoMatch));
    assert_eq!(program("   \n").err(), Some(ParseError::NoMatch));
    assert_eq!(program("fn main() { return 1 } trailing").err(), Some(ParseError::NoMatch));
    assert_eq!(program("fn main() { return 1 } }").err(), Some(ParseError::NoMatch));
    assert_eq!(program("1 + 2").err(), Some(ParseError::NoMatch));
    assert_eq!(parse("fn main() { return 1 } 7").err(), Some(ParseError::NoMatch));
}

#[test]
fn comments_and_line_breaks_are_ignored() {
    let source = "// a program\nfn main()\n{\n  // set up\n  let x = 2 // two\n  return x * 21\n}\n// the end";
    assert_eq!(run_source(source), Ok(Value::Number(42)));
}

#[test]
fn scope_isolation() {
    let source = "fn f() { let x = 1 return x } fn main() { let x = 99 return f() }";
    assert_eq!(run_source(source), Ok(Value::Number(1)));
}

#[test]
fn undefined_names() {
    assert_eq!(run_source("fn main() { return g() }"), Err(EvalError::UndefinedFunction));
    assert_eq!(run_source("fn main() { return y }"), Err(EvalError::UndefinedVariable));
    assert_eq!(
        run_source("fn f() { return x } fn main() { let x = 1 return f() }"),
        Err(EvalError::UndefinedVariable)
    );
}

#[test]
fn arity_check() {
    assert_eq!(
        run_source("fn f() { return 1 } fn main() { return f(2) }"),
        Err(EvalError::ArityMismatch)
    );
    assert_eq!(
        run_source("fn f(a) { return a } fn main() { return f() }"),
        Err(EvalError::ArityMismatch)
    );
}

#[test]
fn parsing_is_deterministic() {
    let source = "fn add(a, b) { return a + b }\nfn main() { let x = add(1, 2 * 3) return (x - 1) / 2 }";
    let first = parse(source).expect("a program");
    let second = parse(source).expect("a program");
    assert_eq!(format!("{:?}", first), format!("{:?}", second));
    assert_eq!(run(&first), Ok(Value::Number(3)));
}

#[test]
fn programs_compute() {
    let source = "fn fact(n) { return n * fact(n - 1) } fn main() { return fact(3) }";
    assert_eq!(run_source(source), Err(EvalError::StackExhausted));
    assert_eq!(
        run_source("fn twice(f) { return f * 2 } fn main() { return twice(twice(5)) + 1 }"),
        Ok(Value::Number(21))
    );
    assert_eq!(run_source("fn main() { return \"text\" }"), Ok(Value::String("text".to_string())));
    assert_eq!(run_source("fn main() { return false }"), Ok(Value::Bool(false)));
    assert_eq!(run_source("fn main() { return 1 / 0 }"), Err(EvalError::DivisionByZero));
    assert_eq!(run_source("fn main() { let s = \"a\" return s + 1 }"), Err(EvalError::TypeMismatch));
    assert_eq!(run_source("fn main() { return main() }"), Err(EvalError::StackExhausted));
}

#[test]
fn text_outside_ascii_is_carried_through() {
    assert_eq!(shown(string("\"héllo wörld\" x")), "String { value: \"héllo wörld\" } then \" x\"");
    assert_eq!(shown(comment("// ça va\nx")), "String { value: \" ça va\" } then \"\\nx\"");
    assert_eq!(run_source("fn main() { return \"日本語\" } // 終わり"), Ok(Value::String("日本語".to_string())));
    assert_eq!(expression("é").err(), Some(ParseError::NoMatch));
    assert_eq!(parse("fn main() { return é }").err(), Some(ParseError::NoMatch));
}

#[test]
fn tabs_and_carriage_returns_are_blank() {
    assert_eq!(run_source("\tfn main()\r\n{\r\n\treturn 4\r\n}\r\n"), Ok(Value::Number(4)));
    // inside an expression only spaces are skipped
    assert_eq!(shown(expression("1\t+ 2")), "Expression { children: [Number { value: 1 }] } then \"\\t+ 2\"");
}
