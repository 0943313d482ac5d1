//! The grammar of the language, as functions from a text to the result of
//! parsing its front.
//!
//! Each rule takes the text that is left and gives either what is left
//! after the rule, with the tree it built, or the reason why it failed.
//! Choices are ordered: the first alternative that matches wins, and a later
//! one is tried on the same text only after `NoMatch`. Repetitions are
//! greedy, and go on only after an item that took something from the text,
//! which every item does. A number that does not fit ends the whole parse.

use vstd::prelude::*;
use crate::text::{CharClass, run_len, after, decimal_value};
use crate::tree::Tree;

verus! {

/// Why a text was not parsed.
#[derive(Debug, Clone, Copy, PartialEq, Eq, Structural)]
pub enum ParseError {
    /// The text does not begin with what the rule describes. A choice goes
    /// on to its next alternative, and a repetition ends.
    NoMatch,
    /// A run of digits stands for a number above `i32::MAX`. No alternative
    /// is tried after it.
    Overflow,
}

/// The result of a rule: the text left after it and the tree it built.
pub type Parsed = Result<(Seq<char>, Tree), ParseError>;

/// Ordered choice: `second` counts only where `first` did not match.
pub open spec fn or_else(first: Parsed, second: Parsed) -> Parsed {
    match first {
        Err(ParseError::NoMatch) => second,
        _ => first,
    }
}

/// The text after the character `c`, where the text begins with it.
pub open spec fn eat(s: Seq<char>, c: char) -> Option<Seq<char>> {
    if s.len() > 0 && s[0] == c {
        Some(s.skip(1))
    } else {
        None
    }
}

/// The text after `word`, where the text begins with it.
pub open spec fn strip(s: Seq<char>, word: Seq<char>) -> Option<Seq<char>> {
    if word.is_prefix_of(s) {
        Some(s.skip(word.len() as int))
    } else {
        None
    }
}

/// The text after its leading spaces.
pub open spec fn spaces(s: Seq<char>) -> Seq<char> {
    after(s, run_len(s, CharClass::Space))
}

/// The text after one space or more; `None` where it begins with none.
pub open spec fn gap(s: Seq<char>) -> Option<Seq<char>> {
    if run_len(s, CharClass::Space) > 0 {
        Some(spaces(s))
    } else {
        None
    }
}

/// Space, tab, line feed and carriage return.
pub open spec fn is_blank(c: char) -> bool {
    c == ' ' || c == '\t' || c == '\n' || c == '\r'
}

/// The characters that end a comment.
pub open spec fn line_end() -> Seq<char> {
    seq!['\n']
}

/// A comment: `//` and the rest of the line. The tree is a `String` that
/// holds the comment's text; the line's end is left.
pub open spec fn comment(s: Seq<char>) -> Parsed {
    if seq!['/', '/'].is_prefix_of(s) {
        let body = s.skip(2);
        let n = run_len(body, CharClass::Except(line_end()));
        Ok((after(body, n), Tree::String { value: body.take(n as int) }))
    } else {
        Err(ParseError::NoMatch)
    }
}

/// The text after its leading blank characters and comments.
pub open spec fn blank(s: Seq<char>) -> Seq<char>
    decreases s.len(),
{
    if s.len() > 0 && is_blank(s[0]) {
        blank(s.skip(1))
    } else {
        match comment(s) {
            Ok((rest, _)) => blank(rest),
            Err(_) => s,
        }
    }
}

/// An identifier: the longest run of letters and digits, one at least.
pub open spec fn identifier(s: Seq<char>) -> Parsed {
    let n = run_len(s, CharClass::Alnum);
    if n > 0 {
        Ok((after(s, n), Tree::Identifier { value: s.take(n as int) }))
    } else {
        Err(ParseError::NoMatch)
    }
}

/// A number: the longest run of digits, one at least, read in base ten.
pub open spec fn number(s: Seq<char>) -> Parsed {
    let n = run_len(s, CharClass::Digit);
    if n == 0 {
        Err(ParseError::NoMatch)
    } else if decimal_value(s.take(n as int)) > i32::MAX {
        Err(ParseError::Overflow)
    } else {
        Ok((after(s, n), Tree::Number { value: decimal_value(s.take(n as int)) as i32 }))
    }
}

/// A boolean: the word `true` or the word `false`. The word ends where the
/// run of letters and digits ends, so `trueness` is no boolean.
pub open spec fn boolean(s: Seq<char>) -> Parsed {
    let n = run_len(s, CharClass::Alnum);
    if s.take(n as int) == seq!['t', 'r', 'u', 'e'] {
        Ok((after(s, n), Tree::Bool { value: true }))
    } else if s.take(n as int) == seq!['f', 'a', 'l', 's', 'e'] {
        Ok((after(s, n), Tree::Bool { value: false }))
    } else {
        Err(ParseError::NoMatch)
    }
}

/// The character that opens and closes a string.
pub open spec fn quote() -> Seq<char> {
    seq!['"']
}

/// A string: a quote, the characters up to the next quote, and that quote.
/// Nothing between the quotes has a special meaning. A string whose closing
/// quote is missing does not match.
pub open spec fn string(s: Seq<char>) -> Parsed {
    match eat(s, '"') {
        Some(body) => {
            let n = run_len(body, CharClass::Except(quote()));
            match eat(after(body, n), '"') {
                Some(rest) => Ok((rest, Tree::String { value: body.take(n as int) })),
                None => Err(ParseError::NoMatch),
            }
        },
        None => Err(ParseError::NoMatch),
    }
}

/// The two tiers of infix operators.
#[derive(Debug, Clone, Copy, PartialEq, Eq, Structural)]
pub enum Tier {
    /// `+` and `-`, which bind least.
    Additive,
    /// `*` and `/`.
    Multiplicative,
}

/// Whether `c` is an operator of `tier`.
pub open spec fn is_sign(tier: Tier, c: char) -> bool {
    match tier {
        Tier::Additive => c == '+' || c == '-',
        Tier::Multiplicative => c == '*' || c == '/',
    }
}

/// The place of a tier in the order in which the rules call each other on
/// one text.
pub open spec fn height(tier: Tier) -> nat {
    match tier {
        Tier::Additive => 8,
        Tier::Multiplicative => 4,
    }
}

/// An operator with one operand: what `infix` and `l3_infix` build, to be
/// completed by `attach`.
pub open spec fn pending(sign: char, operand: Tree) -> Tree {
    Tree::MathExpression { name: seq![sign], children: seq![operand] }
}

/// Completes a pending operator: `head` becomes its first operand. Each
/// operator of a chain takes all that stands before it as its first
/// operand, which makes the chain associate to the left.
pub open spec fn attach(head: Tree, item: Tree) -> Tree {
    match item {
        Tree::MathExpression { name, children } => Tree::MathExpression {
            name,
            children: seq![head] + children,
        },
        _ => head,
    }
}

/// The tree of a rule inside a node that stands for its only child.
pub open spec fn in_expression(p: Parsed) -> Parsed {
    match p {
        Ok((rest, tree)) => Ok((rest, Tree::Expression { children: seq![tree] })),
        Err(e) => Err(e),
    }
}

/// An expression: a boolean, a string, or arithmetic, inside an
/// `Expression` node.
#[verifier::opaque]
pub open spec fn expression(s: Seq<char>) -> Parsed
    decreases s.len(), 12nat,
{
    in_expression(or_else(boolean(s), or_else(string(s), math_expression(s))))
}

/// Arithmetic: a chain of the additive tier.
#[verifier::opaque]
pub open spec fn math_expression(s: Seq<char>) -> Parsed
    decreases s.len(), 11nat,
{
    chain(s, Tier::Additive)
}

/// A chain of `tier`: one operand, then every operator of the tier that
/// follows with its operand, attached from the left.
#[verifier::opaque]
pub open spec fn chain(s: Seq<char>, tier: Tier) -> Parsed
    decreases s.len(), height(tier) + 2,
{
    match operand(s, tier) {
        Ok((rest, head)) => if rest.len() < s.len() {
            chain_tail(rest, tier, head)
        } else {
            Err(ParseError::NoMatch)
        },
        Err(e) => Err(e),
    }
}

/// What the operators of `tier` stand between: for the additive tier a
/// chain of the multiplicative tier, for the multiplicative tier what `l3`
/// matches.
#[verifier::opaque]
pub open spec fn operand(s: Seq<char>, tier: Tier) -> Parsed
    decreases s.len(), height(tier),
{
    match tier {
        Tier::Additive => chain(s, Tier::Multiplicative),
        Tier::Multiplicative => l3(s),
    }
}

/// The operators of `tier` that follow `head`, each with its operand. The
/// chain ends before the first text that `infix` does not match.
#[verifier::opaque]
pub open spec fn chain_tail(s: Seq<char>, tier: Tier, head: Tree) -> Parsed
    decreases s.len(), 1nat,
{
    match infix(s, tier) {
        Ok((rest, item)) => if rest.len() < s.len() {
            chain_tail(rest, tier, attach(head, item))
        } else {
            Err(ParseError::NoMatch)
        },
        Err(ParseError::NoMatch) => Ok((s, head)),
        Err(e) => Err(e),
    }
}

/// An operator of `tier` with the operand after it, spaces allowed before
/// and after the operator.
#[verifier::opaque]
pub open spec fn infix(s: Seq<char>, tier: Tier) -> Parsed
    decreases s.len(), 0nat,
{
    let at = spaces(s);
    if at.len() > 0 && is_sign(tier, at[0]) {
        match operand(spaces(at.skip(1)), tier) {
            Ok((rest, tree)) => Ok((rest, pending(at[0], tree))),
            Err(e) => Err(e),
        }
    } else {
        Err(ParseError::NoMatch)
    }
}

/// The tier of the prefix operator `-`: a negation, or else an atom. The
/// negation of `x` is the tree of `0 - x`.
#[verifier::opaque]
pub open spec fn l3(s: Seq<char>) -> Parsed
    decreases s.len(), 3nat,
{
    match l3_infix(s) {
        Ok((rest, item)) => Ok((rest, attach(Tree::Number { value: 0 }, item))),
        Err(ParseError::NoMatch) => l4(s),
        Err(e) => Err(e),
    }
}

/// The sign `-` with the operand after it, spaces allowed between them.
#[verifier::opaque]
pub open spec fn l3_infix(s: Seq<char>) -> Parsed
    decreases s.len(), 0nat,
{
    match eat(s, '-') {
        Some(rest) => match l3(spaces(rest)) {
            Ok((rest, tree)) => Ok((rest, pending('-', tree))),
            Err(e) => Err(e),
        },
        None => Err(ParseError::NoMatch),
    }
}

/// An atom: a function call, a number, an identifier, or an expression in
/// parentheses, tried in this order.
#[verifier::opaque]
pub open spec fn l4(s: Seq<char>) -> Parsed
    decreases s.len(), 2nat,
{
    or_else(
        function_call(s),
        or_else(number(s), or_else(identifier(s), parenthetical_expression(s))),
    )
}

/// An expression in parentheses, spaces allowed inside them. The tree is
/// that of the expression: the parentheses leave no trace.
#[verifier::opaque]
pub open spec fn parenthetical_expression(s: Seq<char>) -> Parsed
    decreases s.len(), 0nat,
{
    match eat(s, '(') {
        Some(inner) => match expression(spaces(inner)) {
            Ok((rest, tree)) => match eat(spaces(rest), ')') {
                Some(rest) => Ok((rest, tree)),
                None => Err(ParseError::NoMatch),
            },
            Err(e) => Err(e),
        },
        None => Err(ParseError::NoMatch),
    }
}

/// The end of a call or of a parameter list: spaces, and the closing
/// parenthesis.
pub open spec fn close(s: Seq<char>, tree: Tree) -> Parsed {
    match eat(spaces(s), ')') {
        Some(rest) => Ok((rest, tree)),
        None => Err(ParseError::NoMatch),
    }
}

/// A call: the function's name, directly followed by its arguments in
/// parentheses.
#[verifier::opaque]
pub open spec fn function_call(s: Seq<char>) -> Parsed
    decreases s.len(), 1nat,
{
    match identifier(s) {
        Ok((rest, Tree::Identifier { value: name })) => match eat(rest, '(') {
            Some(inner) => call_arguments(inner, name),
            None => Err(ParseError::NoMatch),
        },
        _ => Err(ParseError::NoMatch),
    }
}

/// What follows the opening parenthesis of a call of `name`: the
/// arguments, which may be none, and the closing parenthesis, spaces
/// allowed inside the parentheses.
#[verifier::opaque]
pub open spec fn call_arguments(s: Seq<char>, name: Seq<char>) -> Parsed
    decreases s.len(), 15nat,
{
    match arguments(spaces(s)) {
        Ok((rest, list)) => close(rest, Tree::FunctionCall { name, children: list.children() }),
        Err(ParseError::NoMatch) => close(
            s,
            Tree::FunctionCall { name, children: Seq::empty() },
        ),
        Err(e) => Err(e),
    }
}

/// The arguments of a call: one expression, and then every further one
/// that follows behind a comma.
#[verifier::opaque]
pub open spec fn arguments(s: Seq<char>) -> Parsed
    decreases s.len(), 14nat,
{
    match expression(s) {
        Ok((rest, first)) => if rest.len() < s.len() {
            arguments_tail(rest, seq![first])
        } else {
            Err(ParseError::NoMatch)
        },
        Err(e) => Err(e),
    }
}

/// The arguments that follow `list`, each behind its comma.
#[verifier::opaque]
pub open spec fn arguments_tail(s: Seq<char>, list: Seq<Tree>) -> Parsed
    decreases s.len(), 13nat,
{
    match other_arg(s) {
        Ok((rest, next)) => if rest.len() < s.len() {
            arguments_tail(rest, list.push(next))
        } else {
            Err(ParseError::NoMatch)
        },
        Err(ParseError::NoMatch) => Ok((s, Tree::FunctionArguments { children: list })),
        Err(e) => Err(e),
    }
}

/// A comma and the expression after it, spaces allowed around the comma.
#[verifier::opaque]
pub open spec fn other_arg(s: Seq<char>) -> Parsed
    decreases s.len(), 0nat,
{
    match eat(spaces(s), ',') {
        Some(rest) => expression(spaces(rest)),
        None => Err(ParseError::NoMatch),
    }
}

/// A variable declaration: the word `let`, one space or more, the name,
/// the sign `=` with spaces allowed around it, and the value.
pub open spec fn variable_define(s: Seq<char>) -> Parsed {
    match strip(s, seq!['l', 'e', 't']) {
        Some(rest) => match gap(rest) {
            Some(rest) => match identifier(rest) {
                Ok((rest, name)) => match eat(spaces(rest), '=') {
                    Some(rest) => match expression(spaces(rest)) {
                        Ok((rest, value)) => Ok(
                            (rest, Tree::VariableDefine { children: seq![name, value] }),
                        ),
                        Err(e) => Err(e),
                    },
                    None => Err(ParseError::NoMatch),
                },
                Err(e) => Err(e),
            },
            None => Err(ParseError::NoMatch),
        },
        None => Err(ParseError::NoMatch),
    }
}

/// A return: the word `return`, one space or more, and the value.
pub open spec fn function_return(s: Seq<char>) -> Parsed {
    match strip(s, seq!['r', 'e', 't', 'u', 'r', 'n']) {
        Some(rest) => match gap(rest) {
            Some(rest) => match expression(rest) {
                Ok((rest, value)) => Ok((rest, Tree::FunctionReturn { children: seq![value] })),
                Err(e) => Err(e),
            },
            None => Err(ParseError::NoMatch),
        },
        None => Err(ParseError::NoMatch),
    }
}

/// The tree of a rule inside a `Statement` node.
pub open spec fn in_statement(p: Parsed) -> Parsed {
    match p {
        Ok((rest, tree)) => Ok((rest, Tree::Statement { children: seq![tree] })),
        Err(e) => Err(e),
    }
}

/// A statement: a variable declaration, a return, or an expression, tried
/// in this order, inside a `Statement` node.
pub open spec fn statement(s: Seq<char>) -> Parsed {
    in_statement(or_else(variable_define(s), or_else(function_return(s), expression(s))))
}

/// A comma and the parameter after it, spaces allowed around the comma.
pub open spec fn other_parameter(s: Seq<char>) -> Parsed {
    match eat(spaces(s), ',') {
        Some(rest) => identifier(spaces(rest)),
        None => Err(ParseError::NoMatch),
    }
}

/// The parameters that follow `list`, each behind its comma.
pub open spec fn parameters_tail(s: Seq<char>, list: Seq<Tree>) -> Parsed
    decreases s.len(),
{
    match other_parameter(s) {
        Ok((rest, next)) => if rest.len() < s.len() {
            parameters_tail(rest, list.push(next))
        } else {
            Err(ParseError::NoMatch)
        },
        Err(ParseError::NoMatch) => Ok((s, Tree::FunctionArguments { children: list })),
        Err(e) => Err(e),
    }
}

/// The parameters of a definition: one identifier, and then every further
/// one that follows behind a comma.
pub open spec fn parameters(s: Seq<char>) -> Parsed {
    match identifier(s) {
        Ok((rest, first)) => parameters_tail(rest, seq![first]),
        Err(e) => Err(e),
    }
}

/// The parameter list of a definition: the parameters, which may be none,
/// in parentheses, spaces allowed before and inside them.
pub open spec fn parameter_list(s: Seq<char>) -> Parsed {
    match eat(spaces(s), '(') {
        Some(inner) => match parameters(spaces(inner)) {
            Ok((rest, list)) => close(rest, list),
            Err(ParseError::NoMatch) => close(
                inner,
                Tree::FunctionArguments { children: Seq::empty() },
            ),
            Err(e) => Err(e),
        },
        None => Err(ParseError::NoMatch),
    }
}

/// The statements that follow `list`, with the blanks and comments after
/// each.
pub open spec fn statements_tail(s: Seq<char>, list: Seq<Tree>) -> Parsed
    decreases s.len(),
{
    match statement(s) {
        Ok((rest, next)) => if blank(rest).len() < s.len() {
            statements_tail(blank(rest), list.push(next))
        } else {
            Err(ParseError::NoMatch)
        },
        Err(ParseError::NoMatch) => Ok((s, Tree::FunctionStatements { children: list })),
        Err(e) => Err(e),
    }
}

/// The body of a definition: between braces, one statement or more, with
/// blanks and comments allowed before the opening brace and around every
/// statement.
pub open spec fn block(s: Seq<char>) -> Parsed {
    match eat(blank(s), '{') {
        Some(inner) => match statements_tail(blank(inner), Seq::empty()) {
            Ok((rest, list)) => match eat(rest, '}') {
                Some(rest) => if list.children().len() > 0 {
                    Ok((rest, list))
                } else {
                    Err(ParseError::NoMatch)
                },
                None => Err(ParseError::NoMatch),
            },
            Err(e) => Err(e),
        },
        None => Err(ParseError::NoMatch),
    }
}

/// A function definition: the word `fn`, one space or more, the name, the
/// parameter list, and the body. Its tree holds the name, the parameters
/// and the statements, in this order.
pub open spec fn function_definition(s: Seq<char>) -> Parsed {
    match strip(s, seq!['f', 'n']) {
        Some(rest) => match gap(rest) {
            Some(rest) => match identifier(rest) {
                Ok((rest, name)) => match parameter_list(rest) {
                    Ok((rest, params)) => match block(rest) {
                        Ok((rest, body)) => Ok(
                            (rest, Tree::FunctionDefine { children: seq![name, params, body] }),
                        ),
                        Err(e) => Err(e),
                    },
                    Err(e) => Err(e),
                },
                Err(e) => Err(e),
            },
            None => Err(ParseError::NoMatch),
        },
        None => Err(ParseError::NoMatch),
    }
}

/// The definitions that follow `list`, with the blanks and comments after
/// each.
pub open spec fn definitions_tail(s: Seq<char>, list: Seq<Tree>) -> Parsed
    decreases s.len(),
{
    match function_definition(s) {
        Ok((rest, next)) => if blank(rest).len() < s.len() {
            definitions_tail(blank(rest), list.push(next))
        } else {
            Err(ParseError::NoMatch)
        },
        Err(ParseError::NoMatch) => Ok((s, Tree::Program { children: list })),
        Err(e) => Err(e),
    }
}

/// A program: one function definition or more, and nothing else but blanks
/// and comments before, between and after them. Text that is left after
/// the last definition makes the program fail.
pub open spec fn program(s: Seq<char>) -> Parsed {
    match definitions_tail(blank(s), Seq::empty()) {
        Ok((rest, list)) => if list.children().len() > 0 && rest.len() == 0 {
            Ok((rest, list))
        } else {
            Err(ParseError::NoMatch)
        },
        Err(e) => Err(e),
    }
}

/// The tree of a whole source text.
pub open spec fn parse(s: Seq<char>) -> Result<Tree, ParseError> {
    match program(s) {
        Ok((_, tree)) => Ok(tree),
        Err(e) => Err(e),
    }
}

} // verus!
