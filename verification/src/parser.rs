//! The parser: one function for each rule of the grammar, from the text
//! that is left to what is left after the rule and the node it built.

use vstd::prelude::*;
use vstd::string::*;
use crate::grammar;
use crate::grammar::{ParseError, Parsed, Tier};
use crate::scan;
use crate::scan::str_eq;
use crate::text::{
    CharClass, run_len, after, is_digit, decimal_value, digit_value, lemma_run_len,
    lemma_run_len_is,
};
use crate::tree::Tree;

pub use crate::node::Node;

verus! {

broadcast use vstd::string::is_ascii_spec_bytes;

/// A rule returned `r` on `input` as the grammar says: on success what is
/// left and the tree agree with `expected`, and what is left is shorter
/// than `input`; on failure the errors agree.
pub open spec fn parses_as(
    input: Seq<char>,
    r: Result<(&str, Node), ParseError>,
    expected: Parsed,
) -> bool {
    match r {
        Ok((rest, node)) => expected == Ok::<(Seq<char>, Tree), ParseError>((rest@, node@))
            && rest@.len() < input.len(),
        Err(e) => expected == Err::<(Seq<char>, Tree), ParseError>(e),
    }
}

/// A whole parse returned `r` as the grammar says.
pub open spec fn parsed_as(r: Result<Node, ParseError>, expected: Result<Tree, ParseError>) -> bool {
    match r {
        Ok(node) => expected == Ok::<Tree, ParseError>(node@),
        Err(e) => expected == Err::<Tree, ParseError>(e),
    }
}

/// What is left after a piece of text, or `None`, agrees with `expected`.
pub open spec fn leaves(r: Option<&str>, expected: Option<Seq<char>>) -> bool {
    match r {
        Some(rest) => expected == Some(rest@),
        None => expected is None,
    }
}

/// Takes the one character of `sign` from the front of `input`.
fn symbol<'a>(input: &'a str, sign: &str) -> (r: Option<&'a str>)
    requires
        sign@.len() == 1,
    ensures
        leaves(r, grammar::eat(input@, sign@[0])),
{
    match scan::tag(sign, input) {
        Ok((rest, _)) => {
            assert(input@.subrange(0, 1)[0] == input@[0]);
            Some(rest)
        },
        Err(_) => {
            assert(input@.len() > 0 && input@[0] == sign@[0] ==> sign@ =~= input@.subrange(0, 1));
            None
        },
    }
}

/// Takes `word` from the front of `input`.
fn keyword<'a>(input: &'a str, word: &str) -> (r: Option<&'a str>)
    ensures
        leaves(r, grammar::strip(input@, word@)),
{
    match scan::tag(word, input) {
        Ok((rest, _)) => Some(rest),
        Err(_) => None,
    }
}

/// Skips the spaces at the front of `input`.
fn spaces<'a>(input: &'a str) -> (rest: &'a str)
    ensures
        rest@ == grammar::spaces(input@),
{
    let mut rest = input;
    let ghost mut taken: nat = 0;
    proof {
        reveal_strlit(" ");
    }
    loop
        invariant
            taken <= input@.len(),
            rest@ == input@.skip(taken as int),
            forall|i: int| 0 <= i < taken ==> input@[i] == ' ',
            " "@.len() == 1,
            " "@[0] == ' ',
        decreases input@.len() - taken,
    {
        match symbol(rest, " ") {
            Some(next) => {
                proof {
                    assert(rest@[0] == input@[taken as int]);
                    assert(next@ =~= input@.skip(taken as int + 1));
                    taken = taken + 1;
                }
                rest = next;
            },
            None => {
                proof {
                    if taken < input@.len() {
                        assert(rest@[0] == input@[taken as int]);
                    }
                    lemma_run_len_is(input@, CharClass::Space, taken);
                }
                return rest;
            },
        }
    }
}

/// Skips one space or more at the front of `input`.
fn gap<'a>(input: &'a str) -> (r: Option<&'a str>)
    ensures
        leaves(r, grammar::gap(input@)),
{
    proof {
        reveal_strlit(" ");
    }
    match symbol(input, " ") {
        Some(_) => Some(spaces(input)),
        None => None,
    }
}

/// Parses an identifier: the longest run of ASCII letters and digits at
/// the front of `input`, one at least.
pub fn identifier<'a>(input: &'a str) -> (r: Result<(&'a str, Node), ParseError>)
    ensures
        parses_as(input@, r, grammar::identifier(input@)),
{
    match scan::alphanumeric1(input) {
        Ok((rest, taken)) => {
            proof {
                lemma_run_len(input@, CharClass::Alnum);
            }
            Ok((rest, Node::Identifier { value: String::from_str(taken) }))
        },
        Err(_) => Err(ParseError::NoMatch),
    }
}

/// A longer run of digits stands for no smaller number than its prefix.
proof fn lemma_decimal_value_grows(digits: Seq<char>, n: nat)
    requires
        n <= digits.len(),
    ensures
        decimal_value(digits.take(n as int)) <= decimal_value(digits),
    decreases digits.len(),
{
    if n < digits.len() {
        lemma_decimal_value_grows(digits.drop_last(), n);
        assert(digits.drop_last().take(n as int) =~= digits.take(n as int));
    } else {
        assert(digits.take(n as int) =~= digits);
    }
}

/// Reads a run of digits in base ten; `None` where the number is above
/// `i32::MAX`.
fn decimal(digits: &str) -> (r: Option<i32>)
    requires
        forall|i: int| 0 <= i < digits@.len() ==> is_digit(#[trigger] digits@[i]),
    ensures
        match r {
            Some(value) => decimal_value(digits@) == value,
            None => decimal_value(digits@) > i32::MAX,
        },
{
    assert(is_ascii(digits));
    let bytes = digits.as_bytes();
    let mut acc: u32 = 0;
    let mut i: usize = 0;
    assert(digits@.take(0) =~= Seq::<char>::empty());
    while i < bytes.len()
        invariant
            i <= bytes@.len(),
            bytes@.len() == digits@.len(),
            forall|j: int| 0 <= j < digits@.len() ==> bytes@[j] == digits@[j] as u8,
            forall|j: int| 0 <= j < digits@.len() ==> is_digit(#[trigger] digits@[j]),
            acc == decimal_value(digits@.take(i as int)),
            acc <= i32::MAX,
        decreases bytes@.len() - i,
    {
        let d: u32 = (bytes[i] - 48) as u32;
        let next: u64 = acc as u64 * 10 + d as u64;
        proof {
            let upto = digits@.take(i + 1);
            assert(upto.drop_last() =~= digits@.take(i as int));
            assert(upto.last() == digits@[i as int]);
            assert(is_digit(digits@[i as int]));
            assert(d == digit_value(digits@[i as int]));
            assert(next == decimal_value(upto));
        }
        if next > 2147483647 {
            proof {
                lemma_decimal_value_grows(digits@, (i + 1) as nat);
            }
            return None;
        }
        acc = next as u32;
        i += 1;
    }
    assert(digits@.take(i as int) =~= digits@);
    Some(acc as i32)
}

/// Parses a number: the longest run of ASCII digits at the front of
/// `input`, read in base ten. A number above `i32::MAX` is an `Overflow`.
pub fn number<'a>(input: &'a str) -> (r: Result<(&'a str, Node), ParseError>)
    ensures
        parses_as(input@, r, grammar::number(input@)),
{
    match scan::digit1(input) {
        Ok((rest, taken)) => {
            proof {
                lemma_run_len(input@, CharClass::Digit);
            }
            match decimal(taken) {
                Some(value) => Ok((rest, Node::Number { value })),
                None => Err(ParseError::Overflow),
            }
        },
        Err(_) => Err(ParseError::NoMatch),
    }
}

/// Parses a boolean: the word `true` or the word `false`.
pub fn boolean<'a>(input: &'a str) -> (r: Result<(&'a str, Node), ParseError>)
    ensures
        parses_as(input@, r, grammar::boolean(input@)),
{
    proof {
        reveal_strlit("true");
        reveal_strlit("false");
        assert("true"@ =~= seq!['t', 'r', 'u', 'e']);
        assert("false"@ =~= seq!['f', 'a', 'l', 's', 'e']);
    }
    match scan::alphanumeric1(input) {
        Ok((rest, taken)) => {
            proof {
                lemma_run_len(input@, CharClass::Alnum);
            }
            if str_eq(taken, "true") {
                Ok((rest, Node::Bool { value: true }))
            } else if str_eq(taken, "false") {
                Ok((rest, Node::Bool { value: false }))
            } else {
                Err(ParseError::NoMatch)
            }
        },
        Err(_) => Err(ParseError::NoMatch),
    }
}

/// Takes the characters before the first one of `stops`, none where the
/// text begins with one of them.
fn until<'a>(input: &'a str, stops: &str) -> (r: (&'a str, String))
    ensures
        r.0@ == after(input@, run_len(input@, CharClass::Except(stops@))),
        r.1@ == input@.take(run_len(input@, CharClass::Except(stops@)) as int),
{
    proof {
        lemma_run_len(input@, CharClass::Except(stops@));
    }
    match scan::is_not(stops, input) {
        Ok((rest, taken)) => (rest, String::from_str(taken)),
        Err(_) => {
            assert(input@.skip(0) =~= input@);
            assert(input@.take(0) =~= Seq::<char>::empty());
            (input, String::new())
        },
    }
}

/// Parses a string: what stands between a quote and the next quote.
pub fn string<'a>(input: &'a str) -> (r: Result<(&'a str, Node), ParseError>)
    ensures
        parses_as(input@, r, grammar::string(input@)),
{
    proof {
        reveal_strlit("\"");
        assert("\""@ =~= grammar::quote());
    }
    match symbol(input, "\"") {
        Some(body) => {
            let (end, value) = until(body, "\"");
            proof {
                lemma_run_len(body@, CharClass::Except(grammar::quote()));
            }
            match symbol(end, "\"") {
                Some(rest) => Ok((rest, Node::String { value })),
                None => Err(ParseError::NoMatch),
            }
        },
        None => Err(ParseError::NoMatch),
    }
}

/// Parses a comment: `//` and the rest of the line. The node is a `String`
/// that holds the comment's text.
pub fn comment<'a>(input: &'a str) -> (r: Result<(&'a str, Node), ParseError>)
    ensures
        parses_as(input@, r, grammar::comment(input@)),
{
    proof {
        reveal_strlit("//");
        reveal_strlit("\n");
        assert("//"@ =~= seq!['/', '/']);
        assert("\n"@ =~= grammar::line_end());
    }
    match keyword(input, "//") {
        Some(body) => {
            let (rest, value) = until(body, "\n");
            proof {
                lemma_run_len(body@, CharClass::Except(grammar::line_end()));
            }
            Ok((rest, Node::String { value }))
        },
        None => Err(ParseError::NoMatch),
    }
}

/// Takes one blank character from the front of `input`.
fn blank_character<'a>(input: &'a str) -> (r: Option<&'a str>)
    ensures
        match r {
            Some(rest) => input@.len() > 0 && grammar::is_blank(input@[0]) && rest@
                == input@.skip(1),
            None => !(input@.len() > 0 && grammar::is_blank(input@[0])),
        },
{
    proof {
        reveal_strlit(" ");
        reveal_strlit("\t");
        reveal_strlit("\n");
        reveal_strlit("\r");
    }
    match symbol(input, " ") {
        Some(rest) => Some(rest),
        None => match symbol(input, "\n") {
            Some(rest) => Some(rest),
            None => match symbol(input, "\t") {
                Some(rest) => Some(rest),
                None => symbol(input, "\r"),
            },
        },
    }
}

/// Skips the blank characters and the comments at the front of `input`.
fn blank<'a>(input: &'a str) -> (rest: &'a str)
    ensures
        rest@ == grammar::blank(input@),
        rest@.len() <= input@.len(),
{
    let mut rest = input;
    loop
        invariant
            grammar::blank(rest@) == grammar::blank(input@),
            rest@.len() <= input@.len(),
        decreases rest@.len(),
    {
        match blank_character(rest) {
            Some(next) => {
                rest = next;
            },
            None => match comment(rest) {
                Ok((next, _)) => {
                    rest = next;
                },
                Err(_) => {
                    return rest;
                },
            },
        }
    }
}

/// Makes `head` the first operand of the operator `item`.
fn attach(head: Node, item: Node) -> (r: Node)
    ensures
        r@ == grammar::attach(head@, item@),
{
    match item {
        Node::MathExpression { name, children } => {
            let mut children = children;
            let ghost before = children@;
            children.insert(0, head);
            proof {
                let now = children@;
                assert(now =~= before.insert(0, head));
                assert forall|i: int| 0 <= i < now.len() implies #[trigger] crate::node::trees(
                    now,
                )[i] == (seq![head@] + crate::node::trees(before))[i] by {
                    if i > 0 {
                        assert(now[i] == before[i - 1]);
                    }
                }
                assert(crate::node::trees(now) =~= seq![head@] + crate::node::trees(before));
            }
            Node::MathExpression { name, children }
        },
        _ => head,
    }
}

/// An operator that has its operand and waits for what stands before it.
fn pending(sign: &str, operand: Node) -> (r: Node)
    requires
        sign@.len() == 1,
    ensures
        r@ == grammar::pending(sign@[0], operand@),
{
    let mut children: Vec<Node> = Vec::new();
    children.push(operand);
    let r = Node::MathExpression { name: String::from_str(sign), children };
    assert(r@->MathExpression_children =~= seq![operand@]);
    assert(r@->MathExpression_name =~= seq![sign@[0]]);
    r
}

/// A node with `child` as its only child.
fn only(child: Node) -> (children: Vec<Node>)
    ensures
        crate::node::trees(children@) == seq![child@],
{
    let mut children: Vec<Node> = Vec::new();
    children.push(child);
    assert(crate::node::trees(children@) =~= seq![child@]);
    children
}

/// Parses an expression: a boolean, a string, or arithmetic, tried in this
/// order. The node is an `Expression` around what was found.
pub fn expression<'a>(input: &'a str) -> (r: Result<(&'a str, Node), ParseError>)
    ensures
        parses_as(input@, r, grammar::expression(input@)),
    decreases input@.len(), 12nat,
{
    proof {
        reveal(grammar::expression);
        reveal(grammar::math_expression);
    }
    let found = match boolean(input) {
        Ok(found) => found,
        Err(_) => match string(input) {
            Ok(found) => found,
            Err(_) => match math_expression(input) {
                Ok(found) => found,
                Err(e) => {
                    return Err(e);
                },
            },
        },
    };
    Ok((found.0, Node::Expression { children: only(found.1) }))
}

/// Parses arithmetic: a chain of the additive tier.
pub fn math_expression<'a>(input: &'a str) -> (r: Result<(&'a str, Node), ParseError>)
    ensures
        parses_as(input@, r, grammar::math_expression(input@)),
    decreases input@.len(), 11nat,
{
    proof {
        reveal(grammar::math_expression);
        reveal(grammar::chain);
    }
    l1(input)
}

/// Parses a chain of the additive tier: an operand of the multiplicative
/// tier, then every `+` or `-` that follows with its operand. Each operator
/// takes all that stands before it as its first operand, so that the chain
/// associates to the left.
pub fn l1<'a>(input: &'a str) -> (r: Result<(&'a str, Node), ParseError>)
    ensures
        parses_as(input@, r, grammar::chain(input@, Tier::Additive)),
    decreases input@.len(), 10nat,
{
    proof {
        reveal(grammar::chain);
        reveal(grammar::operand);
        reveal(grammar::chain_tail);
        reveal(grammar::infix);
    }
    let (mut rest, mut head) = match l2(input) {
        Ok(found) => found,
        Err(e) => {
            return Err(e);
        },
    };
    loop
        invariant
            rest@.len() < input@.len(),
            grammar::chain(input@, Tier::Additive) == grammar::chain_tail(
                rest@,
                Tier::Additive,
                head@,
            ),
        decreases rest@.len(),
    {
        proof {
            reveal(grammar::chain_tail);
            reveal(grammar::infix);
        }
        match l1_infix(rest) {
            Ok((next, item)) => {
                head = attach(head, item);
                rest = next;
            },
            Err(ParseError::NoMatch) => {
                return Ok((rest, head));
            },
            Err(e) => {
                return Err(e);
            },
        }
    }
}

/// Parses `+` or `-` with the operand after it, spaces allowed around the
/// operator. The node is the operator with that one operand; `l1` gives it
/// its first.
pub fn l1_infix<'a>(input: &'a str) -> (r: Result<(&'a str, Node), ParseError>)
    ensures
        parses_as(input@, r, grammar::infix(input@, Tier::Additive)),
    decreases input@.len(), 0nat,
{
    proof {
        reveal(grammar::infix);
        reveal(grammar::operand);
        reveal(grammar::chain);
    }
    proof {
        reveal_strlit("+");
        reveal_strlit("-");
    }
    let at = spaces(input);
    proof {
        lemma_run_len(input@, CharClass::Space);
    }
    let (sign, after_sign) = match symbol(at, "+") {
        Some(rest) => ("+", rest),
        None => match symbol(at, "-") {
            Some(rest) => ("-", rest),
            None => {
                return Err(ParseError::NoMatch);
            },
        },
    };
    let from = spaces(after_sign);
    proof {
        lemma_run_len(after_sign@, CharClass::Space);
    }
    match l2(from) {
        Ok((rest, operand)) => Ok((rest, pending(sign, operand))),
        Err(e) => Err(e),
    }
}

/// Parses a chain of the multiplicative tier: a negation or an atom, then
/// every `*` or `/` that follows with its operand, associated to the left.
pub fn l2<'a>(input: &'a str) -> (r: Result<(&'a str, Node), ParseError>)
    ensures
        parses_as(input@, r, grammar::chain(input@, Tier::Multiplicative)),
    decreases input@.len(), 6nat,
{
    proof {
        reveal(grammar::chain);
        reveal(grammar::operand);
        reveal(grammar::l3);
        reveal(grammar::chain_tail);
        reveal(grammar::infix);
    }
    let (mut rest, mut head) = match l3(input) {
        Ok(found) => found,
        Err(e) => {
            return Err(e);
        },
    };
    loop
        invariant
            rest@.len() < input@.len(),
            grammar::chain(input@, Tier::Multiplicative) == grammar::chain_tail(
                rest@,
                Tier::Multiplicative,
                head@,
            ),
        decreases rest@.len(),
    {
        proof {
            reveal(grammar::chain_tail);
            reveal(grammar::infix);
        }
        match l2_infix(rest) {
            Ok((next, item)) => {
                head = attach(head, item);
                rest = next;
            },
            Err(ParseError::NoMatch) => {
                return Ok((rest, head));
            },
            Err(e) => {
                return Err(e);
            },
        }
    }
}

/// Parses `*` or `/` with the operand after it, spaces allowed around the
/// operator. The node is the operator with that one operand; `l2` gives it
/// its first.
pub fn l2_infix<'a>(input: &'a str) -> (r: Result<(&'a str, Node), ParseError>)
    ensures
        parses_as(input@, r, grammar::infix(input@, Tier::Multiplicative)),
    decreases input@.len(), 0nat,
{
    proof {
        reveal(grammar::infix);
        reveal(grammar::operand);
        reveal(grammar::l3);
    }
    proof {
        reveal_strlit("*");
        reveal_strlit("/");
    }
    let at = spaces(input);
    proof {
        lemma_run_len(input@, CharClass::Space);
    }
    let (sign, after_sign) = match symbol(at, "*") {
        Some(rest) => ("*", rest),
        None => match symbol(at, "/") {
            Some(rest) => ("/", rest),
            None => {
                return Err(ParseError::NoMatch);
            },
        },
    };
    let from = spaces(after_sign);
    proof {
        lemma_run_len(after_sign@, CharClass::Space);
    }
    match l3(from) {
        Ok((rest, operand)) => Ok((rest, pending(sign, operand))),
        Err(e) => Err(e),
    }
}

/// Parses the tier of the prefix operator: the negation `-x`, whose node is
/// that of `0 - x`, or else an atom.
pub fn l3<'a>(input: &'a str) -> (r: Result<(&'a str, Node), ParseError>)
    ensures
        parses_as(input@, r, grammar::l3(input@)),
    decreases input@.len(), 3nat,
{
    proof {
        reveal(grammar::l3);
        reveal(grammar::l3_infix);
        reveal(grammar::l4);
    }
    match l3_infix(input) {
        Ok((rest, item)) => Ok((rest, attach(Node::Number { value: 0 }, item))),
        Err(ParseError::NoMatch) => l4(input),
        Err(e) => Err(e),
    }
}

/// Parses the sign `-` with the operand after it, spaces allowed between
/// them. The node is the operator with that one operand; `l3` gives it zero
/// as its first.
pub fn l3_infix<'a>(input: &'a str) -> (r: Result<(&'a str, Node), ParseError>)
    ensures
        parses_as(input@, r, grammar::l3_infix(input@)),
    decreases input@.len(), 0nat,
{
    proof {
        reveal(grammar::l3_infix);
        reveal(grammar::l3);
    }
    proof {
        reveal_strlit("-");
    }
    match symbol(input, "-") {
        Some(after_sign) => {
            let from = spaces(after_sign);
            proof {
                lemma_run_len(after_sign@, CharClass::Space);
            }
            match l3(from) {
                Ok((rest, operand)) => Ok((rest, pending("-", operand))),
                Err(e) => Err(e),
            }
        },
        None => Err(ParseError::NoMatch),
    }
}

/// Parses an atom: a function call, a number, an identifier, or an
/// expression in parentheses, tried in this order on the same text.
pub fn l4<'a>(input: &'a str) -> (r: Result<(&'a str, Node), ParseError>)
    ensures
        parses_as(input@, r, grammar::l4(input@)),
    decreases input@.len(), 2nat,
{
    proof {
        reveal(grammar::l4);
        reveal(grammar::function_call);
        reveal(grammar::parenthetical_expression);
    }
    match function_call(input) {
        Err(ParseError::NoMatch) => match number(input) {
            Err(ParseError::NoMatch) => match identifier(input) {
                Err(ParseError::NoMatch) => parenthetical_expression(input),
                other => other,
            },
            other => other,
        },
        other => other,
    }
}

/// Parses an expression in parentheses. The node is that of the
/// expression: the parentheses leave no trace.
pub fn parenthetical_expression<'a>(input: &'a str) -> (r: Result<(&'a str, Node), ParseError>)
    ensures
        parses_as(input@, r, grammar::parenthetical_expression(input@)),
    decreases input@.len(), 0nat,
{
    proof {
        reveal(grammar::parenthetical_expression);
        reveal(grammar::expression);
    }
    proof {
        reveal_strlit("(");
        reveal_strlit(")");
    }
    match symbol(input, "(") {
        Some(inner) => {
            let from = spaces(inner);
            proof {
                lemma_run_len(inner@, CharClass::Space);
            }
            match expression(from) {
                Ok((rest, node)) => {
                    let at = spaces(rest);
                    proof {
                        lemma_run_len(rest@, CharClass::Space);
                    }
                    match symbol(at, ")") {
                        Some(rest) => Ok((rest, node)),
                        None => Err(ParseError::NoMatch),
                    }
                },
                Err(e) => Err(e),
            }
        },
        None => Err(ParseError::NoMatch),
    }
}

/// Parses the closing parenthesis of a call or of a parameter list.
fn close<'a>(input: &'a str, node: Node) -> (r: Result<(&'a str, Node), ParseError>)
    ensures
        match r {
            Ok((rest, built)) => grammar::close(input@, node@) == Ok::<
                (Seq<char>, Tree),
                ParseError,
            >((rest@, built@)) && rest@.len() < input@.len(),
            Err(e) => grammar::close(input@, node@) == Err::<(Seq<char>, Tree), ParseError>(e),
        },
{
    proof {
        reveal_strlit(")");
        lemma_run_len(input@, CharClass::Space);
    }
    match symbol(spaces(input), ")") {
        Some(rest) => Ok((rest, node)),
        None => Err(ParseError::NoMatch),
    }
}

/// Parses a call: the function's name, directly followed by its arguments
/// in parentheses, which may be none.
pub fn function_call<'a>(input: &'a str) -> (r: Result<(&'a str, Node), ParseError>)
    ensures
        parses_as(input@, r, grammar::function_call(input@)),
    decreases input@.len(), 1nat,
{
    proof {
        reveal(grammar::function_call);
        reveal(grammar::call_arguments);
    }
    proof {
        reveal_strlit("(");
    }
    match identifier(input) {
        Ok((rest, Node::Identifier { value })) => match symbol(rest, "(") {
            Some(inner) => call_arguments(inner, value),
            None => Err(ParseError::NoMatch),
        },
        _ => Err(ParseError::NoMatch),
    }
}

/// Parses what follows the opening parenthesis of a call of `name`.
fn call_arguments<'a>(input: &'a str, name: String) -> (r: Result<(&'a str, Node), ParseError>)
    ensures
        match r {
            Ok((rest, node)) => grammar::call_arguments(input@, name@) == Ok::<
                (Seq<char>, Tree),
                ParseError,
            >((rest@, node@)) && rest@.len() < input@.len(),
            Err(e) => grammar::call_arguments(input@, name@) == Err::<
                (Seq<char>, Tree),
                ParseError,
            >(e),
        },
    decreases input@.len(), 15nat,
{
    proof {
        reveal(grammar::call_arguments);
        reveal(grammar::arguments);
    }
    let from = spaces(input);
    proof {
        lemma_run_len(input@, CharClass::Space);
    }
    let found = arguments(from);
    let ghost expected = grammar::arguments(from@);
    assert(grammar::call_arguments(input@, name@) == match expected {
        Ok((rest, list)) => grammar::close(
            rest,
            Tree::FunctionCall { name: name@, children: list.children() },
        ),
        Err(ParseError::NoMatch) => grammar::close(
            input@,
            Tree::FunctionCall { name: name@, children: Seq::empty() },
        ),
        Err(e) => Err(e),
    });
    match found {
        Ok((rest, list)) => {
            let ghost tree = list@;
            let call = call_of(name, list);
            assert(call@ == Tree::FunctionCall { name: name@, children: tree.children() });
            close(rest, call)
        },
        Err(ParseError::NoMatch) => close(input, call_of(name, empty_arguments())),
        Err(e) => Err(e),
    }
}

/// An argument list without arguments.
fn empty_arguments() -> (list: Node)
    ensures
        list@ == (Tree::FunctionArguments { children: Seq::empty() }),
{
    let list = Node::FunctionArguments { children: Vec::new() };
    assert(list@->FunctionArguments_children =~= Seq::<Tree>::empty());
    list
}

/// The call of `name` with the arguments that `list` holds.
fn call_of(name: String, list: Node) -> (call: Node)
    ensures
        call@ == (Tree::FunctionCall { name: name@, children: list@.children() }),
{
    let children = match list {
        Node::Program { children } => children,
        Node::Statement { children } => children,
        Node::FunctionReturn { children } => children,
        Node::FunctionDefine { children } => children,
        Node::FunctionArguments { children } => children,
        Node::FunctionStatements { children } => children,
        Node::Expression { children } => children,
        Node::MathExpression { children, .. } => children,
        Node::FunctionCall { children, .. } => children,
        Node::VariableDefine { children } => children,
        _ => {
            let none = Vec::new();
            assert(crate::node::trees(none@) =~= Seq::<Tree>::empty());
            none
        },
    };
    Node::FunctionCall { name, children }
}

/// Parses the arguments of a call: one expression, and every further one
/// behind a comma. The node is a `FunctionArguments` that holds them.
pub fn arguments<'a>(input: &'a str) -> (r: Result<(&'a str, Node), ParseError>)
    ensures
        parses_as(input@, r, grammar::arguments(input@)),
    decreases input@.len(), 14nat,
{
    proof {
        reveal(grammar::arguments);
        reveal(grammar::expression);
        reveal(grammar::arguments_tail);
        reveal(grammar::other_arg);
    }
    let (mut rest, first) = match expression(input) {
        Ok(found) => found,
        Err(e) => {
            return Err(e);
        },
    };
    let mut list: Vec<Node> = only(first);
    loop
        invariant
            rest@.len() < input@.len(),
            grammar::arguments(input@) == grammar::arguments_tail(
                rest@,
                crate::node::trees(list@),
            ),
        decreases rest@.len(),
    {
        proof {
            reveal(grammar::arguments_tail);
            reveal(grammar::other_arg);
        }
        match other_arg(rest) {
            Ok((next, node)) => {
                proof {
                    assert(crate::node::trees(list@.push(node)) =~= crate::node::trees(
                        list@,
                    ).push(node@));
                }
                list.push(node);
                rest = next;
            },
            Err(ParseError::NoMatch) => {
                return Ok((rest, Node::FunctionArguments { children: list }));
            },
            Err(e) => {
                return Err(e);
            },
        }
    }
}

/// Parses a comma and the argument after it, spaces allowed around the
/// comma.
pub fn other_arg<'a>(input: &'a str) -> (r: Result<(&'a str, Node), ParseError>)
    ensures
        parses_as(input@, r, grammar::other_arg(input@)),
    decreases input@.len(), 0nat,
{
    proof {
        reveal(grammar::other_arg);
        reveal(grammar::expression);
    }
    proof {
        reveal_strlit(",");
        lemma_run_len(input@, CharClass::Space);
    }
    match symbol(spaces(input), ",") {
        Some(rest) => {
            proof {
                lemma_run_len(rest@, CharClass::Space);
            }
            expression(spaces(rest))
        },
        None => Err(ParseError::NoMatch),
    }
}

/// Two children in a row.
fn pair(first: Node, second: Node) -> (children: Vec<Node>)
    ensures
        crate::node::trees(children@) == seq![first@, second@],
{
    let mut children: Vec<Node> = Vec::new();
    children.push(first);
    children.push(second);
    assert(crate::node::trees(children@) =~= seq![first@, second@]);
    children
}

/// Parses a variable declaration: `let`, one space or more, the name, `=`
/// with spaces allowed around it, and the value. The node holds the name
/// and the value.
pub fn variable_define<'a>(input: &'a str) -> (r: Result<(&'a str, Node), ParseError>)
    ensures
        parses_as(input@, r, grammar::variable_define(input@)),
{
    proof {
        reveal_strlit("let");
        reveal_strlit("=");
        assert("let"@ =~= seq!['l', 'e', 't']);
    }
    let rest = match keyword(input, "let") {
        Some(rest) => rest,
        None => {
            return Err(ParseError::NoMatch);
        },
    };
    let rest = match gap(rest) {
        Some(rest) => rest,
        None => {
            return Err(ParseError::NoMatch);
        },
    };
    let (rest, name) = match identifier(rest) {
        Ok(found) => found,
        Err(e) => {
            return Err(e);
        },
    };
    proof {
        lemma_run_len(rest@, CharClass::Space);
    }
    let rest = match symbol(spaces(rest), "=") {
        Some(rest) => rest,
        None => {
            return Err(ParseError::NoMatch);
        },
    };
    proof {
        lemma_run_len(rest@, CharClass::Space);
    }
    match expression(spaces(rest)) {
        Ok((rest, value)) => Ok((rest, Node::VariableDefine { children: pair(name, value) })),
        Err(e) => Err(e),
    }
}

/// Parses a return: `return`, one space or more, and the value.
pub fn function_return<'a>(input: &'a str) -> (r: Result<(&'a str, Node), ParseError>)
    ensures
        parses_as(input@, r, grammar::function_return(input@)),
{
    proof {
        reveal_strlit("return");
        assert("return"@ =~= seq!['r', 'e', 't', 'u', 'r', 'n']);
    }
    let rest = match keyword(input, "return") {
        Some(rest) => rest,
        None => {
            return Err(ParseError::NoMatch);
        },
    };
    let rest = match gap(rest) {
        Some(rest) => rest,
        None => {
            return Err(ParseError::NoMatch);
        },
    };
    match expression(rest) {
        Ok((rest, value)) => Ok((rest, Node::FunctionReturn { children: only(value) })),
        Err(e) => Err(e),
    }
}

/// Parses a statement: a variable declaration, a return, or an expression,
/// tried in this order. The node is a `Statement` around what was found.
pub fn statement<'a>(input: &'a str) -> (r: Result<(&'a str, Node), ParseError>)
    ensures
        parses_as(input@, r, grammar::statement(input@)),
{
    let found = match variable_define(input) {
        Err(ParseError::NoMatch) => match function_return(input) {
            Err(ParseError::NoMatch) => expression(input),
            other => other,
        },
        other => other,
    };
    match found {
        Ok((rest, node)) => Ok((rest, Node::Statement { children: only(node) })),
        Err(e) => Err(e),
    }
}

/// Parses a comma and the parameter after it, spaces allowed around the
/// comma.
pub fn other_parameter<'a>(input: &'a str) -> (r: Result<(&'a str, Node), ParseError>)
    ensures
        parses_as(input@, r, grammar::other_parameter(input@)),
{
    proof {
        reveal_strlit(",");
        lemma_run_len(input@, CharClass::Space);
    }
    match symbol(spaces(input), ",") {
        Some(rest) => {
            proof {
                lemma_run_len(rest@, CharClass::Space);
            }
            identifier(spaces(rest))
        },
        None => Err(ParseError::NoMatch),
    }
}

/// Parses the parameters of a definition: one identifier, and every
/// further one behind a comma. The node is a `FunctionArguments` that holds
/// them.
pub fn parameters<'a>(input: &'a str) -> (r: Result<(&'a str, Node), ParseError>)
    ensures
        parses_as(input@, r, grammar::parameters(input@)),
{
    let (mut rest, first) = match identifier(input) {
        Ok(found) => found,
        Err(e) => {
            return Err(e);
        },
    };
    let mut list: Vec<Node> = only(first);
    loop
        invariant
            rest@.len() < input@.len(),
            grammar::parameters(input@) == grammar::parameters_tail(
                rest@,
                crate::node::trees(list@),
            ),
        decreases rest@.len(),
    {
        match other_parameter(rest) {
            Ok((next, node)) => {
                proof {
                    assert(crate::node::trees(list@.push(node)) =~= crate::node::trees(
                        list@,
                    ).push(node@));
                }
                list.push(node);
                rest = next;
            },
            Err(ParseError::NoMatch) => {
                return Ok((rest, Node::FunctionArguments { children: list }));
            },
            Err(e) => {
                return Err(e);
            },
        }
    }
}

/// Parses the parameter list of a definition.
fn parameter_list<'a>(input: &'a str) -> (r: Result<(&'a str, Node), ParseError>)
    ensures
        parses_as(input@, r, grammar::parameter_list(input@)),
{
    proof {
        reveal_strlit("(");
        lemma_run_len(input@, CharClass::Space);
    }
    let inner = match symbol(spaces(input), "(") {
        Some(inner) => inner,
        None => {
            return Err(ParseError::NoMatch);
        },
    };
    proof {
        lemma_run_len(inner@, CharClass::Space);
    }
    match parameters(spaces(inner)) {
        Ok((rest, list)) => close(rest, list),
        Err(ParseError::NoMatch) => {
            let list = Node::FunctionArguments { children: Vec::new() };
            assert(list@->FunctionArguments_children =~= Seq::<Tree>::empty());
            close(inner, list)
        },
        Err(e) => Err(e),
    }
}

/// Parses the statements of a body, with the blanks and comments after
/// each; the list may be empty.
fn statements<'a>(input: &'a str) -> (r: Result<(&'a str, Vec<Node>), ParseError>)
    ensures
        match r {
            Ok((rest, list)) => grammar::statements_tail(input@, Seq::empty()) == Ok::<
                (Seq<char>, Tree),
                ParseError,
            >((rest@, Tree::FunctionStatements { children: crate::node::trees(list@) }))
                && rest@.len() <= input@.len(),
            Err(e) => grammar::statements_tail(input@, Seq::empty()) == Err::<
                (Seq<char>, Tree),
                ParseError,
            >(e),
        },
{
    let mut rest = input;
    let mut list: Vec<Node> = Vec::new();
    assert(crate::node::trees(list@) =~= Seq::<Tree>::empty());
    loop
        invariant
            rest@.len() <= input@.len(),
            grammar::statements_tail(input@, Seq::empty()) == grammar::statements_tail(
                rest@,
                crate::node::trees(list@),
            ),
        decreases rest@.len(),
    {
        match statement(rest) {
            Ok((next, node)) => {
                proof {
                    assert(crate::node::trees(list@.push(node)) =~= crate::node::trees(
                        list@,
                    ).push(node@));
                }
                list.push(node);
                rest = blank(next);
            },
            Err(ParseError::NoMatch) => {
                return Ok((rest, list));
            },
            Err(e) => {
                return Err(e);
            },
        }
    }
}

/// Parses the body of a definition.
fn block<'a>(input: &'a str) -> (r: Result<(&'a str, Node), ParseError>)
    ensures
        parses_as(input@, r, grammar::block(input@)),
{
    proof {
        reveal_strlit("{");
        reveal_strlit("}");
    }
    let inner = match symbol(blank(input), "{") {
        Some(inner) => inner,
        None => {
            return Err(ParseError::NoMatch);
        },
    };
    let (rest, list) = match statements(blank(inner)) {
        Ok(found) => found,
        Err(e) => {
            return Err(e);
        },
    };
    match symbol(rest, "}") {
        Some(rest) => {
            assert(crate::node::trees(list@).len() == list@.len());
            if list.len() > 0 {
                Ok((rest, Node::FunctionStatements { children: list }))
            } else {
                Err(ParseError::NoMatch)
            }
        },
        None => Err(ParseError::NoMatch),
    }
}

/// Three children in a row.
fn triple(first: Node, second: Node, third: Node) -> (children: Vec<Node>)
    ensures
        crate::node::trees(children@) == seq![first@, second@, third@],
{
    let mut children: Vec<Node> = Vec::new();
    children.push(first);
    children.push(second);
    children.push(third);
    assert(crate::node::trees(children@) =~= seq![first@, second@, third@]);
    children
}

/// Parses a function definition: `fn`, one space or more, the name, the
/// parameters in parentheses, and one statement or more in braces. The node
/// holds the name, the parameters and the statements.
pub fn function_definition<'a>(input: &'a str) -> (r: Result<(&'a str, Node), ParseError>)
    ensures
        parses_as(input@, r, grammar::function_definition(input@)),
{
    proof {
        reveal_strlit("fn");
        assert("fn"@ =~= seq!['f', 'n']);
    }
    let rest = match keyword(input, "fn") {
        Some(rest) => rest,
        None => {
            return Err(ParseError::NoMatch);
        },
    };
    let rest = match gap(rest) {
        Some(rest) => rest,
        None => {
            return Err(ParseError::NoMatch);
        },
    };
    let (rest, name) = match identifier(rest) {
        Ok(found) => found,
        Err(e) => {
            return Err(e);
        },
    };
    let (rest, params) = match parameter_list(rest) {
        Ok(found) => found,
        Err(e) => {
            return Err(e);
        },
    };
    match block(rest) {
        Ok((rest, body)) => Ok(
            (rest, Node::FunctionDefine { children: triple(name, params, body) }),
        ),
        Err(e) => Err(e),
    }
}

/// Parses the definitions of a program, with the blanks and comments after
/// each; the list may be empty.
fn definitions<'a>(input: &'a str) -> (r: Result<(&'a str, Vec<Node>), ParseError>)
    ensures
        match r {
            Ok((rest, list)) => grammar::definitions_tail(input@, Seq::empty()) == Ok::<
                (Seq<char>, Tree),
                ParseError,
            >((rest@, Tree::Program { children: crate::node::trees(list@) })),
            Err(e) => grammar::definitions_tail(input@, Seq::empty()) == Err::<
                (Seq<char>, Tree),
                ParseError,
            >(e),
        },
{
    let mut rest = input;
    let mut list: Vec<Node> = Vec::new();
    assert(crate::node::trees(list@) =~= Seq::<Tree>::empty());
    loop
        invariant
            grammar::definitions_tail(input@, Seq::empty()) == grammar::definitions_tail(
                rest@,
                crate::node::trees(list@),
            ),
        decreases rest@.len(),
    {
        match function_definition(rest) {
            Ok((next, node)) => {
                proof {
                    assert(crate::node::trees(list@.push(node)) =~= crate::node::trees(
                        list@,
                    ).push(node@));
                }
                list.push(node);
                rest = blank(next);
            },
            Err(ParseError::NoMatch) => {
                return Ok((rest, list));
            },
            Err(e) => {
                return Err(e);
            },
        }
    }
}

/// Parses a program: one function definition or more, with nothing but
/// blanks and comments before, between and after them. On success nothing
/// of `input` is left; text after the last definition is a failure.
pub fn program<'a>(input: &'a str) -> (r: Result<(&'a str, Node), ParseError>)
    ensures
        match r {
            Ok((rest, node)) => grammar::program(input@) == Ok::<(Seq<char>, Tree), ParseError>(
                (rest@, node@),
            ) && rest@.len() == 0,
            Err(e) => grammar::program(input@) == Err::<(Seq<char>, Tree), ParseError>(e),
        },
{
    match definitions(blank(input)) {
        Ok((rest, list)) => {
            assert(crate::node::trees(list@).len() == list@.len());
            if list.len() > 0 && rest.is_empty() {
                Ok((rest, Node::Program { children: list }))
            } else {
                Err(ParseError::NoMatch)
            }
        },
        Err(e) => Err(e),
    }
}

/// Parses a whole source text into the tree of its program.
pub fn parse(source: &str) -> (r: Result<Node, ParseError>)
    ensures
        parsed_as(r, grammar::parse(source@)),
        r matches Ok(node) ==> crate::shape::is_program(node@),
{
    proof {
        crate::soundness::lemma_program(source@);
    }
    match program(source) {
        Ok((_, node)) => Ok(node),
        Err(e) => Err(e),
    }
}

} // verus!
