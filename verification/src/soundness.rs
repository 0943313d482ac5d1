//! The grammar builds trees of the right shape, and what a rule leaves is
//! the end of the text it was given.

use vstd::prelude::*;
use crate::grammar::{
    ParseError, Parsed, Tier, arguments, arguments_tail, attach, blank, block, boolean,
    call_arguments, chain, chain_tail, close, comment, definitions_tail, eat, expression,
    function_call, function_definition, function_return, gap, height, identifier, infix, is_sign,
    l3, l3_infix, l4, math_expression, number, operand, other_arg, other_parameter,
    parameter_list, parameters, parameters_tail, parenthetical_expression, parse, pending,
    program, spaces, statement, statements_tail, string, strip, variable_define,
};
use crate::shape::{
    are_definitions, are_expressions, are_identifiers, are_statements, is_arithmetic,
    is_definition, is_expression, is_pending, is_program, is_statement,
};
use crate::text::{CharClass, after, lemma_run_len, run_len};
use crate::tree::Tree;
use crate::value::operator_of;

verus! {

/// `rest` is an end of `s`: what is left of `s` after some of its first
/// characters.
pub open spec fn is_suffix(rest: Seq<char>, s: Seq<char>) -> bool {
    rest.len() <= s.len() && rest == s.skip(s.len() - rest.len())
}

/// On success, a rule took one character at least from the front of `s`
/// and left the rest.
pub open spec fn takes(p: Parsed, s: Seq<char>) -> bool {
    p matches Ok((rest, _)) ==> is_suffix(rest, s) && rest.len() < s.len()
}

/// On success, a rule left an end of `s`, which may be all of `s`.
pub open spec fn leaves(p: Parsed, s: Seq<char>) -> bool {
    p matches Ok((rest, _)) ==> is_suffix(rest, s)
}

pub proof fn lemma_suffix_of_suffix(a: Seq<char>, b: Seq<char>, c: Seq<char>)
    requires
        is_suffix(a, b),
        is_suffix(b, c),
    ensures
        is_suffix(a, c),
{
    assert(a =~= c.skip(c.len() - a.len()));
}

pub proof fn lemma_skip_is_suffix(s: Seq<char>, n: int)
    requires
        0 <= n <= s.len(),
    ensures
        is_suffix(s.skip(n), s),
{
    assert(s.skip(n) =~= s.skip(s.len() - s.skip(n).len()));
}

pub proof fn lemma_after_is_suffix(s: Seq<char>, class: CharClass)
    ensures
        is_suffix(after(s, run_len(s, class)), s),
        after(s, run_len(s, class)).len() + run_len(s, class) == s.len(),
{
    lemma_run_len(s, class);
    lemma_skip_is_suffix(s, run_len(s, class) as int);
}

pub proof fn lemma_spaces(s: Seq<char>)
    ensures
        is_suffix(spaces(s), s),
{
    lemma_after_is_suffix(s, CharClass::Space);
}

pub proof fn lemma_eat(s: Seq<char>, c: char)
    ensures
        eat(s, c) matches Some(rest) ==> is_suffix(rest, s) && rest.len() + 1 == s.len(),
{
    if s.len() > 0 {
        lemma_skip_is_suffix(s, 1);
    }
}

pub proof fn lemma_strip(s: Seq<char>, word: Seq<char>)
    ensures
        strip(s, word) matches Some(rest) ==> is_suffix(rest, s) && rest.len() + word.len()
            == s.len(),
{
    if word.is_prefix_of(s) {
        lemma_skip_is_suffix(s, word.len() as int);
    }
}

pub proof fn lemma_gap(s: Seq<char>)
    ensures
        gap(s) matches Some(rest) ==> is_suffix(rest, s) && rest.len() < s.len(),
{
    lemma_after_is_suffix(s, CharClass::Space);
}

pub proof fn lemma_comment(s: Seq<char>)
    ensures
        takes(comment(s), s),
{
    if seq!['/', '/'].is_prefix_of(s) {
        let body = s.skip(2);
        lemma_skip_is_suffix(s, 2);
        lemma_after_is_suffix(body, CharClass::Except(crate::grammar::line_end()));
        lemma_suffix_of_suffix(
            after(body, run_len(body, CharClass::Except(crate::grammar::line_end()))),
            body,
            s,
        );
    }
}

pub proof fn lemma_blank(s: Seq<char>)
    ensures
        is_suffix(blank(s), s),
    decreases s.len(),
{
    if s.len() > 0 && crate::grammar::is_blank(s[0]) {
        lemma_blank(s.skip(1));
        lemma_skip_is_suffix(s, 1);
        lemma_suffix_of_suffix(blank(s.skip(1)), s.skip(1), s);
    } else {
        lemma_comment(s);
        match comment(s) {
            Ok((rest, _)) => {
                lemma_blank(rest);
                lemma_suffix_of_suffix(blank(rest), rest, s);
            },
            Err(_) => {
                lemma_skip_is_suffix(s, 0);
                assert(s.skip(0) =~= s);
            },
        }
    }
}

pub proof fn lemma_identifier(s: Seq<char>)
    ensures
        takes(identifier(s), s),
        identifier(s) matches Ok((_, tree)) ==> tree is Identifier,
{
    lemma_after_is_suffix(s, CharClass::Alnum);
}

pub proof fn lemma_number(s: Seq<char>)
    ensures
        takes(number(s), s),
        number(s) matches Ok((_, tree)) ==> tree is Number,
{
    lemma_after_is_suffix(s, CharClass::Digit);
}

pub proof fn lemma_boolean(s: Seq<char>)
    ensures
        takes(boolean(s), s),
        boolean(s) matches Ok((_, tree)) ==> tree is Bool,
{
    lemma_after_is_suffix(s, CharClass::Alnum);
    let n = run_len(s, CharClass::Alnum);
    assert(s.take(n as int).len() == n);
}

pub proof fn lemma_string(s: Seq<char>)
    ensures
        takes(string(s), s),
        string(s) matches Ok((_, tree)) ==> tree is String,
{
    lemma_eat(s, '"');
    match eat(s, '"') {
        Some(body) => {
            let end = after(body, run_len(body, CharClass::Except(crate::grammar::quote())));
            lemma_after_is_suffix(body, CharClass::Except(crate::grammar::quote()));
            lemma_eat(end, '"');
            match eat(end, '"') {
                Some(rest) => {
                    lemma_suffix_of_suffix(rest, end, body);
                    lemma_suffix_of_suffix(rest, body, s);
                },
                None => {},
            }
        },
        None => {},
    }
}

/// The sign of a tier is the sign of an operator.
pub proof fn lemma_sign_is_operator(tier: Tier, c: char)
    requires
        is_sign(tier, c),
    ensures
        operator_of(seq![c]) is Some,
{
    assert(c == '+' ==> seq![c] =~= seq!['+']);
    assert(c == '-' ==> seq![c] =~= seq!['-']);
    assert(c == '*' ==> seq![c] =~= seq!['*']);
    assert(c == '/' ==> seq![c] =~= seq!['/']);
}

/// A pending operator that gets its first operand is arithmetic.
pub proof fn lemma_attach(head: Tree, item: Tree)
    requires
        is_arithmetic(head),
        is_pending(item),
    ensures
        is_arithmetic(attach(head, item)),
{
    let children = seq![head] + item->MathExpression_children;
    assert(children.len() == 2);
    assert(children[0] == head);
    assert(children[1] == item->MathExpression_children[0]);
}

pub proof fn lemma_close(s: Seq<char>, tree: Tree)
    ensures
        takes(close(s, tree), s),
        close(s, tree) matches Ok((_, built)) ==> built == tree,
{
    lemma_spaces(s);
    lemma_eat(spaces(s), ')');
    match eat(spaces(s), ')') {
        Some(rest) => {
            lemma_suffix_of_suffix(rest, spaces(s), s);
        },
        None => {},
    }
}

/// An expression takes from the text, and its tree is an expression.
pub proof fn lemma_expression(s: Seq<char>)
    ensures
        takes(expression(s), s),
        expression(s) matches Ok((_, tree)) ==> is_expression(tree),
    decreases s.len(), 12nat,
{
    reveal(expression);
    reveal(math_expression);
    lemma_boolean(s);
    lemma_string(s);
    lemma_math_expression(s);
}

pub proof fn lemma_math_expression(s: Seq<char>)
    ensures
        takes(math_expression(s), s),
        math_expression(s) matches Ok((_, tree)) ==> is_arithmetic(tree),
    decreases s.len(), 11nat,
{
    reveal(math_expression);
    reveal(chain);
    lemma_chain(s, Tier::Additive);
}

/// A chain takes from the text, and its tree is arithmetic.
pub proof fn lemma_chain(s: Seq<char>, tier: Tier)
    ensures
        takes(chain(s, tier), s),
        chain(s, tier) matches Ok((_, tree)) ==> is_arithmetic(tree),
    decreases s.len(), height(tier) + 2,
{
    reveal(chain);
    reveal(operand);
    reveal(chain_tail);
    lemma_operand(s, tier);
    match operand(s, tier) {
        Ok((rest, head)) => {
            if rest.len() < s.len() {
                lemma_chain_tail(rest, tier, head);
                match chain_tail(rest, tier, head) {
                    Ok((end, _)) => {
                        lemma_suffix_of_suffix(end, rest, s);
                    },
                    Err(_) => {},
                }
            }
        },
        Err(_) => {},
    }
}

pub proof fn lemma_operand(s: Seq<char>, tier: Tier)
    ensures
        takes(operand(s, tier), s),
        operand(s, tier) matches Ok((_, tree)) ==> is_arithmetic(tree),
    decreases s.len(), height(tier),
{
    reveal(operand);
    reveal(chain);
    reveal(l3);
    match tier {
        Tier::Additive => lemma_chain(s, Tier::Multiplicative),
        Tier::Multiplicative => lemma_l3(s),
    }
}

pub proof fn lemma_chain_tail(s: Seq<char>, tier: Tier, head: Tree)
    requires
        is_arithmetic(head),
    ensures
        leaves(chain_tail(s, tier, head), s),
        chain_tail(s, tier, head) matches Ok((_, tree)) ==> is_arithmetic(tree),
    decreases s.len(), 1nat,
{
    reveal(chain_tail);
    reveal(infix);
    lemma_infix(s, tier);
    match infix(s, tier) {
        Ok((rest, item)) => {
            if rest.len() < s.len() {
                lemma_attach(head, item);
                lemma_chain_tail(rest, tier, attach(head, item));
                match chain_tail(rest, tier, attach(head, item)) {
                    Ok((end, _)) => {
                        lemma_suffix_of_suffix(end, rest, s);
                    },
                    Err(_) => {},
                }
            }
        },
        Err(ParseError::NoMatch) => {
            lemma_skip_is_suffix(s, 0);
            assert(s.skip(0) =~= s);
        },
        Err(_) => {},
    }
}

pub proof fn lemma_infix(s: Seq<char>, tier: Tier)
    ensures
        takes(infix(s, tier), s),
        infix(s, tier) matches Ok((_, item)) ==> is_pending(item),
    decreases s.len(), 0nat,
{
    reveal(infix);
    reveal(operand);
    let at = spaces(s);
    lemma_spaces(s);
    if at.len() > 0 && is_sign(tier, at[0]) {
        let from = spaces(at.skip(1));
        lemma_skip_is_suffix(at, 1);
        lemma_spaces(at.skip(1));
        lemma_suffix_of_suffix(from, at.skip(1), at);
        lemma_suffix_of_suffix(from, at, s);
        lemma_operand(from, tier);
        match operand(from, tier) {
            Ok((rest, tree)) => {
                lemma_suffix_of_suffix(rest, from, s);
                lemma_sign_is_operator(tier, at[0]);
                assert(pending(at[0], tree)->MathExpression_children[0] == tree);
            },
            Err(_) => {},
        }
    }
}

pub proof fn lemma_l3(s: Seq<char>)
    ensures
        takes(l3(s), s),
        l3(s) matches Ok((_, tree)) ==> is_arithmetic(tree),
    decreases s.len(), 3nat,
{
    reveal(l3);
    reveal(l3_infix);
    reveal(l4);
    lemma_l3_infix(s);
    match l3_infix(s) {
        Ok((_, item)) => {
            lemma_attach(Tree::Number { value: 0 }, item);
        },
        Err(ParseError::NoMatch) => {
            lemma_l4(s);
        },
        Err(_) => {},
    }
}

pub proof fn lemma_l3_infix(s: Seq<char>)
    ensures
        takes(l3_infix(s), s),
        l3_infix(s) matches Ok((_, item)) ==> is_pending(item),
    decreases s.len(), 0nat,
{
    reveal(l3_infix);
    reveal(l3);
    lemma_eat(s, '-');
    match eat(s, '-') {
        Some(after_sign) => {
            let from = spaces(after_sign);
            lemma_spaces(after_sign);
            lemma_suffix_of_suffix(from, after_sign, s);
            lemma_l3(from);
            match l3(from) {
                Ok((rest, tree)) => {
                    lemma_suffix_of_suffix(rest, from, s);
                    lemma_sign_is_operator(Tier::Additive, '-');
                    assert(pending('-', tree)->MathExpression_children[0] == tree);
                },
                Err(_) => {},
            }
        },
        None => {},
    }
}

pub proof fn lemma_l4(s: Seq<char>)
    ensures
        takes(l4(s), s),
        l4(s) matches Ok((_, tree)) ==> is_arithmetic(tree),
    decreases s.len(), 2nat,
{
    reveal(l4);
    reveal(function_call);
    reveal(parenthetical_expression);
    lemma_function_call(s);
    lemma_number(s);
    lemma_identifier(s);
    lemma_parenthetical_expression(s);
}

pub proof fn lemma_parenthetical_expression(s: Seq<char>)
    ensures
        takes(parenthetical_expression(s), s),
        parenthetical_expression(s) matches Ok((_, tree)) ==> is_expression(tree),
    decreases s.len(), 0nat,
{
    reveal(parenthetical_expression);
    reveal(expression);
    lemma_eat(s, '(');
    match eat(s, '(') {
        Some(inner) => {
            let from = spaces(inner);
            lemma_spaces(inner);
            lemma_suffix_of_suffix(from, inner, s);
            lemma_expression(from);
            match expression(from) {
                Ok((rest, _)) => {
                    lemma_suffix_of_suffix(rest, from, s);
                    lemma_spaces(rest);
                    lemma_suffix_of_suffix(spaces(rest), rest, s);
                    lemma_eat(spaces(rest), ')');
                    match eat(spaces(rest), ')') {
                        Some(end) => {
                            lemma_suffix_of_suffix(end, spaces(rest), s);
                        },
                        None => {},
                    }
                },
                Err(_) => {},
            }
        },
        None => {},
    }
}

pub proof fn lemma_function_call(s: Seq<char>)
    ensures
        takes(function_call(s), s),
        function_call(s) matches Ok((_, tree)) ==> is_arithmetic(tree),
    decreases s.len(), 1nat,
{
    reveal(function_call);
    reveal(call_arguments);
    lemma_identifier(s);
    match identifier(s) {
        Ok((rest, Tree::Identifier { value: name })) => {
            lemma_eat(rest, '(');
            match eat(rest, '(') {
                Some(inner) => {
                    lemma_suffix_of_suffix(inner, rest, s);
                    lemma_call_arguments(inner, name);
                    match call_arguments(inner, name) {
                        Ok((end, _)) => {
                            lemma_suffix_of_suffix(end, inner, s);
                        },
                        Err(_) => {},
                    }
                },
                None => {},
            }
        },
        _ => {},
    }
}

pub proof fn lemma_call_arguments(s: Seq<char>, name: Seq<char>)
    ensures
        takes(call_arguments(s, name), s),
        call_arguments(s, name) matches Ok((_, tree)) ==> is_arithmetic(tree),
    decreases s.len(), 15nat,
{
    reveal(call_arguments);
    reveal(arguments);
    lemma_spaces(s);
    lemma_arguments(spaces(s));
    match arguments(spaces(s)) {
        Ok((rest, list)) => {
            let call = Tree::FunctionCall { name, children: list.children() };
            lemma_close(rest, call);
            match close(rest, call) {
                Ok((end, _)) => {
                    lemma_suffix_of_suffix(rest, spaces(s), s);
                    lemma_suffix_of_suffix(end, rest, s);
                },
                Err(_) => {},
            }
        },
        Err(ParseError::NoMatch) => {
            lemma_close(s, Tree::FunctionCall { name, children: Seq::empty() });
        },
        Err(_) => {},
    }
}

pub proof fn lemma_arguments(s: Seq<char>)
    ensures
        takes(arguments(s), s),
        arguments(s) matches Ok((_, tree)) ==> tree is FunctionArguments && are_expressions(
            tree.children(),
        ),
    decreases s.len(), 14nat,
{
    reveal(arguments);
    reveal(expression);
    reveal(arguments_tail);
    lemma_expression(s);
    match expression(s) {
        Ok((rest, first)) => {
            if rest.len() < s.len() {
                lemma_arguments_tail(rest, seq![first]);
                match arguments_tail(rest, seq![first]) {
                    Ok((end, _)) => {
                        lemma_suffix_of_suffix(end, rest, s);
                    },
                    Err(_) => {},
                }
            }
        },
        Err(_) => {},
    }
}

pub proof fn lemma_arguments_tail(s: Seq<char>, list: Seq<Tree>)
    requires
        are_expressions(list),
    ensures
        leaves(arguments_tail(s, list), s),
        arguments_tail(s, list) matches Ok((_, tree)) ==> tree is FunctionArguments
            && are_expressions(tree.children()),
    decreases s.len(), 13nat,
{
    reveal(arguments_tail);
    reveal(other_arg);
    lemma_other_arg(s);
    match other_arg(s) {
        Ok((rest, next)) => {
            if rest.len() < s.len() {
                lemma_arguments_tail(rest, list.push(next));
                match arguments_tail(rest, list.push(next)) {
                    Ok((end, _)) => {
                        lemma_suffix_of_suffix(end, rest, s);
                    },
                    Err(_) => {},
                }
            }
        },
        Err(ParseError::NoMatch) => {
            lemma_skip_is_suffix(s, 0);
            assert(s.skip(0) =~= s);
        },
        Err(_) => {},
    }
}

pub proof fn lemma_other_arg(s: Seq<char>)
    ensures
        takes(other_arg(s), s),
        other_arg(s) matches Ok((_, tree)) ==> is_expression(tree),
    decreases s.len(), 0nat,
{
    reveal(other_arg);
    reveal(expression);
    lemma_spaces(s);
    lemma_eat(spaces(s), ',');
    match eat(spaces(s), ',') {
        Some(rest) => {
            let from = spaces(rest);
            lemma_spaces(rest);
            lemma_suffix_of_suffix(rest, spaces(s), s);
            lemma_suffix_of_suffix(from, rest, s);
            lemma_expression(from);
            match expression(from) {
                Ok((end, _)) => {
                    lemma_suffix_of_suffix(end, from, s);
                },
                Err(_) => {},
            }
        },
        None => {},
    }
}

pub proof fn lemma_variable_define(s: Seq<char>)
    ensures
        takes(variable_define(s), s),
        variable_define(s) matches Ok((_, tree)) ==> tree matches Tree::VariableDefine {
            children,
        } && children.len() == 2 && children[0] is Identifier && is_expression(children[1]),
{
    let word = seq!['l', 'e', 't'];
    lemma_strip(s, word);
    match strip(s, word) {
        Some(r1) => {
            lemma_gap(r1);
            match gap(r1) {
                Some(r2) => {
                    lemma_suffix_of_suffix(r2, r1, s);
                    lemma_identifier(r2);
                    match identifier(r2) {
                        Ok((r3, _)) => {
                            lemma_suffix_of_suffix(r3, r2, s);
                            lemma_spaces(r3);
                            lemma_suffix_of_suffix(spaces(r3), r3, s);
                            lemma_eat(spaces(r3), '=');
                            match eat(spaces(r3), '=') {
                                Some(r4) => {
                                    lemma_suffix_of_suffix(r4, spaces(r3), s);
                                    lemma_spaces(r4);
                                    lemma_suffix_of_suffix(spaces(r4), r4, s);
                                    lemma_expression(spaces(r4));
                                    match expression(spaces(r4)) {
                                        Ok((r5, _)) => {
                                            lemma_suffix_of_suffix(r5, spaces(r4), s);
                                        },
                                        Err(_) => {},
                                    }
                                },
                                None => {},
                            }
                        },
                        Err(_) => {},
                    }
                },
                None => {},
            }
        },
        None => {},
    }
}

pub proof fn lemma_function_return(s: Seq<char>)
    ensures
        takes(function_return(s), s),
        function_return(s) matches Ok((_, tree)) ==> tree matches Tree::FunctionReturn {
            children,
        } && children.len() == 1 && is_expression(children[0]),
{
    let word = seq!['r', 'e', 't', 'u', 'r', 'n'];
    lemma_strip(s, word);
    match strip(s, word) {
        Some(r1) => {
            lemma_gap(r1);
            match gap(r1) {
                Some(r2) => {
                    lemma_suffix_of_suffix(r2, r1, s);
                    lemma_expression(r2);
                    match expression(r2) {
                        Ok((r3, _)) => {
                            lemma_suffix_of_suffix(r3, r2, s);
                        },
                        Err(_) => {},
                    }
                },
                None => {},
            }
        },
        None => {},
    }
}

/// A statement takes from the text, and its tree is a statement.
pub proof fn lemma_statement(s: Seq<char>)
    ensures
        takes(statement(s), s),
        statement(s) matches Ok((_, tree)) ==> is_statement(tree),
{
    lemma_variable_define(s);
    lemma_function_return(s);
    lemma_expression(s);
}

pub proof fn lemma_other_parameter(s: Seq<char>)
    ensures
        takes(other_parameter(s), s),
        other_parameter(s) matches Ok((_, tree)) ==> tree is Identifier,
{
    lemma_spaces(s);
    lemma_eat(spaces(s), ',');
    match eat(spaces(s), ',') {
        Some(rest) => {
            let from = spaces(rest);
            lemma_spaces(rest);
            lemma_suffix_of_suffix(rest, spaces(s), s);
            lemma_suffix_of_suffix(from, rest, s);
            lemma_identifier(from);
            match identifier(from) {
                Ok((end, _)) => {
                    lemma_suffix_of_suffix(end, from, s);
                },
                Err(_) => {},
            }
        },
        None => {},
    }
}

pub proof fn lemma_parameters_tail(s: Seq<char>, list: Seq<Tree>)
    requires
        are_identifiers(list),
    ensures
        leaves(parameters_tail(s, list), s),
        parameters_tail(s, list) matches Ok((_, tree)) ==> tree is FunctionArguments
            && are_identifiers(tree.children()),
    decreases s.len(),
{
    lemma_other_parameter(s);
    match other_parameter(s) {
        Ok((rest, next)) => {
            if rest.len() < s.len() {
                lemma_parameters_tail(rest, list.push(next));
                match parameters_tail(rest, list.push(next)) {
                    Ok((end, _)) => {
                        lemma_suffix_of_suffix(end, rest, s);
                    },
                    Err(_) => {},
                }
            }
        },
        Err(ParseError::NoMatch) => {
            lemma_skip_is_suffix(s, 0);
            assert(s.skip(0) =~= s);
        },
        Err(_) => {},
    }
}

pub proof fn lemma_parameters(s: Seq<char>)
    ensures
        takes(parameters(s), s),
        parameters(s) matches Ok((_, tree)) ==> tree is FunctionArguments && are_identifiers(
            tree.children(),
        ),
{
    lemma_identifier(s);
    match identifier(s) {
        Ok((rest, first)) => {
            lemma_parameters_tail(rest, seq![first]);
            match parameters_tail(rest, seq![first]) {
                Ok((end, _)) => {
                    lemma_suffix_of_suffix(end, rest, s);
                },
                Err(_) => {},
            }
        },
        Err(_) => {},
    }
}

pub proof fn lemma_parameter_list(s: Seq<char>)
    ensures
        takes(parameter_list(s), s),
        parameter_list(s) matches Ok((_, tree)) ==> tree is FunctionArguments
            && are_identifiers(tree.children()),
{
    lemma_spaces(s);
    lemma_eat(spaces(s), '(');
    match eat(spaces(s), '(') {
        Some(inner) => {
            lemma_suffix_of_suffix(inner, spaces(s), s);
            lemma_spaces(inner);
            lemma_suffix_of_suffix(spaces(inner), inner, s);
            lemma_parameters(spaces(inner));
            match parameters(spaces(inner)) {
                Ok((rest, list)) => {
                    lemma_suffix_of_suffix(rest, spaces(inner), s);
                    lemma_close(rest, list);
                    match close(rest, list) {
                        Ok((end, _)) => {
                            lemma_suffix_of_suffix(end, rest, s);
                        },
                        Err(_) => {},
                    }
                },
                Err(ParseError::NoMatch) => {
                    let none = Tree::FunctionArguments { children: Seq::empty() };
                    lemma_close(inner, none);
                    match close(inner, none) {
                        Ok((end, _)) => {
                            lemma_suffix_of_suffix(end, inner, s);
                        },
                        Err(_) => {},
                    }
                },
                Err(_) => {},
            }
        },
        None => {},
    }
}

pub proof fn lemma_statements_tail(s: Seq<char>, list: Seq<Tree>)
    requires
        are_statements(list),
    ensures
        leaves(statements_tail(s, list), s),
        statements_tail(s, list) matches Ok((_, tree)) ==> tree is FunctionStatements
            && are_statements(tree.children()),
    decreases s.len(),
{
    lemma_statement(s);
    match statement(s) {
        Ok((rest, next)) => {
            lemma_blank(rest);
            if blank(rest).len() < s.len() {
                lemma_statements_tail(blank(rest), list.push(next));
                match statements_tail(blank(rest), list.push(next)) {
                    Ok((end, _)) => {
                        lemma_suffix_of_suffix(blank(rest), rest, s);
                        lemma_suffix_of_suffix(end, blank(rest), s);
                    },
                    Err(_) => {},
                }
            }
        },
        Err(ParseError::NoMatch) => {
            lemma_skip_is_suffix(s, 0);
            assert(s.skip(0) =~= s);
        },
        Err(_) => {},
    }
}

pub proof fn lemma_block(s: Seq<char>)
    ensures
        takes(block(s), s),
        block(s) matches Ok((_, tree)) ==> tree is FunctionStatements && tree.children().len() > 0
            && are_statements(tree.children()),
{
    lemma_blank(s);
    lemma_eat(blank(s), '{');
    match eat(blank(s), '{') {
        Some(inner) => {
            lemma_suffix_of_suffix(inner, blank(s), s);
            lemma_blank(inner);
            lemma_suffix_of_suffix(blank(inner), inner, s);
            lemma_statements_tail(blank(inner), Seq::empty());
            match statements_tail(blank(inner), Seq::empty()) {
                Ok((rest, _)) => {
                    lemma_suffix_of_suffix(rest, blank(inner), s);
                    lemma_eat(rest, '}');
                    match eat(rest, '}') {
                        Some(end) => {
                            lemma_suffix_of_suffix(end, rest, s);
                        },
                        None => {},
                    }
                },
                Err(_) => {},
            }
        },
        None => {},
    }
}

/// A function definition takes from the text, and its tree is a function
/// definition.
pub proof fn lemma_function_definition(s: Seq<char>)
    ensures
        takes(function_definition(s), s),
        function_definition(s) matches Ok((_, tree)) ==> is_definition(tree),
{
    let word = seq!['f', 'n'];
    lemma_strip(s, word);
    match strip(s, word) {
        Some(r1) => {
            lemma_gap(r1);
            match gap(r1) {
                Some(r2) => {
                    lemma_suffix_of_suffix(r2, r1, s);
                    lemma_identifier(r2);
                    match identifier(r2) {
                        Ok((r3, _)) => {
                            lemma_suffix_of_suffix(r3, r2, s);
                            lemma_parameter_list(r3);
                            match parameter_list(r3) {
                                Ok((r4, _)) => {
                                    lemma_suffix_of_suffix(r4, r3, s);
                                    lemma_block(r4);
                                    match block(r4) {
                                        Ok((r5, _)) => {
                                            lemma_suffix_of_suffix(r5, r4, s);
                                        },
                                        Err(_) => {},
                                    }
                                },
                                Err(_) => {},
                            }
                        },
                        Err(_) => {},
                    }
                },
                None => {},
            }
        },
        None => {},
    }
}

pub proof fn lemma_definitions_tail(s: Seq<char>, list: Seq<Tree>)
    requires
        are_definitions(list),
    ensures
        leaves(definitions_tail(s, list), s),
        definitions_tail(s, list) matches Ok((_, tree)) ==> tree is Program && are_definitions(
            tree.children(),
        ),
    decreases s.len(),
{
    lemma_function_definition(s);
    match function_definition(s) {
        Ok((rest, next)) => {
            lemma_blank(rest);
            if blank(rest).len() < s.len() {
                lemma_definitions_tail(blank(rest), list.push(next));
                match definitions_tail(blank(rest), list.push(next)) {
                    Ok((end, _)) => {
                        lemma_suffix_of_suffix(blank(rest), rest, s);
                        lemma_suffix_of_suffix(end, blank(rest), s);
                    },
                    Err(_) => {},
                }
            }
        },
        Err(ParseError::NoMatch) => {
            lemma_skip_is_suffix(s, 0);
            assert(s.skip(0) =~= s);
        },
        Err(_) => {},
    }
}

/// The tree of a program is a program, and nothing of the text is left.
pub proof fn lemma_program(s: Seq<char>)
    ensures
        program(s) matches Ok((rest, tree)) ==> rest.len() == 0 && is_program(tree),
        parse(s) matches Ok(tree) ==> is_program(tree),
{
    lemma_definitions_tail(blank(s), Seq::empty());
}

/// A chain is its first operand and what follows it: the test in `chain`
/// that the operand took from the text never fails.
pub proof fn lemma_chain_goes_on(s: Seq<char>, tier: Tier)
    ensures
        chain(s, tier) == match operand(s, tier) {
            Ok((rest, head)) => chain_tail(rest, tier, head),
            Err(e) => Err(e),
        },
{
    reveal(chain);
    reveal(operand);
    reveal(chain_tail);
    lemma_operand(s, tier);
}

/// After each operator with its operand a chain goes on: the test in
/// `chain_tail` that they took from the text never fails.
pub proof fn lemma_chain_tail_goes_on(s: Seq<char>, tier: Tier, head: Tree)
    ensures
        chain_tail(s, tier, head) == match infix(s, tier) {
            Ok((rest, item)) => chain_tail(rest, tier, attach(head, item)),
            Err(ParseError::NoMatch) => Ok((s, head)),
            Err(e) => Err(e),
        },
{
    reveal(chain_tail);
    reveal(infix);
    lemma_infix(s, tier);
}

/// The arguments are the first one and what follows it: the test in
/// `arguments` that the first took from the text never fails.
pub proof fn lemma_arguments_go_on(s: Seq<char>)
    ensures
        arguments(s) == match expression(s) {
            Ok((rest, first)) => arguments_tail(rest, seq![first]),
            Err(e) => Err(e),
        },
{
    reveal(arguments);
    reveal(expression);
    reveal(arguments_tail);
    lemma_expression(s);
}

/// After each further argument the list goes on: the test in
/// `arguments_tail` that it took from the text never fails.
pub proof fn lemma_arguments_tail_goes_on(s: Seq<char>, list: Seq<Tree>)
    ensures
        arguments_tail(s, list) == match other_arg(s) {
            Ok((rest, next)) => arguments_tail(rest, list.push(next)),
            Err(ParseError::NoMatch) => Ok((s, Tree::FunctionArguments { children: list })),
            Err(e) => Err(e),
        },
{
    reveal(arguments_tail);
    reveal(other_arg);
    lemma_other_arg(s);
}

/// After each further parameter the list goes on: the test in
/// `parameters_tail` that it took from the text never fails.
pub proof fn lemma_parameters_tail_goes_on(s: Seq<char>, list: Seq<Tree>)
    ensures
        parameters_tail(s, list) == match other_parameter(s) {
            Ok((rest, next)) => parameters_tail(rest, list.push(next)),
            Err(ParseError::NoMatch) => Ok((s, Tree::FunctionArguments { children: list })),
            Err(e) => Err(e),
        },
{
    lemma_other_parameter(s);
}

/// After each statement the list goes on: the test in `statements_tail`
/// that it took from the text never fails.
pub proof fn lemma_statements_tail_goes_on(s: Seq<char>, list: Seq<Tree>)
    ensures
        statements_tail(s, list) == match statement(s) {
            Ok((rest, next)) => statements_tail(blank(rest), list.push(next)),
            Err(ParseError::NoMatch) => Ok((s, Tree::FunctionStatements { children: list })),
            Err(e) => Err(e),
        },
{
    lemma_statement(s);
    match statement(s) {
        Ok((rest, _)) => {
            lemma_blank(rest);
        },
        Err(_) => {},
    }
}

/// After each definition the list goes on: the test in `definitions_tail`
/// that it took from the text never fails.
pub proof fn lemma_definitions_tail_goes_on(s: Seq<char>, list: Seq<Tree>)
    ensures
        definitions_tail(s, list) == match function_definition(s) {
            Ok((rest, next)) => definitions_tail(blank(rest), list.push(next)),
            Err(ParseError::NoMatch) => Ok((s, Tree::Program { children: list })),
            Err(e) => Err(e),
        },
{
    lemma_function_definition(s);
    match function_definition(s) {
        Ok((rest, _)) => {
            lemma_blank(rest);
        },
        Err(_) => {},
    }
}

} // verus!
