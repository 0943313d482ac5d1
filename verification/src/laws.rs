//! Facts about the grammar and about evaluation that hold of every input.

use vstd::prelude::*;
use crate::grammar;
use crate::grammar::ParseError;
use crate::node::Node;
use crate::semantics;
use crate::semantics::{Bindings, Outcome, Table};
use crate::text::{
    CharClass, decimal_text, decimal_value, digit_of, digit_value, is_digit, lemma_run_len_is,
    member, run_len,
};
use crate::tree::Tree;
use crate::value::{Datum, EvalError};

verus! {

/// The decimal text of a number is a run of digits, one at least, and
/// stands for that number.
pub proof fn lemma_decimal_text(n: nat)
    ensures
        decimal_text(n).len() > 0,
        forall|i: int| 0 <= i < decimal_text(n).len() ==> is_digit(#[trigger] decimal_text(n)[i]),
        decimal_value(decimal_text(n)) == n,
    decreases n,
{
    let text = decimal_text(n);
    if n < 10 {
        assert(is_digit(digit_of(n)) && digit_value(digit_of(n)) == n);
        assert(text.drop_last() =~= Seq::<char>::empty());
        assert(decimal_value(text.drop_last()) == 0);
    } else {
        let d = n % 10;
        lemma_decimal_text(n / 10);
        assert(is_digit(digit_of(d)) && digit_value(digit_of(d)) == d);
        assert(text.drop_last() =~= decimal_text(n / 10));
        assert(text.last() == digit_of(d));
    }
}

/// A run of digits before a text that does not go on with a digit is the
/// run that `number` takes.
proof fn lemma_digits_are_taken(digits: Seq<char>, rest: Seq<char>)
    requires
        forall|i: int| 0 <= i < digits.len() ==> is_digit(#[trigger] digits[i]),
        rest.len() == 0 || !is_digit(rest[0]),
    ensures
        run_len(digits + rest, CharClass::Digit) == digits.len(),
        (digits + rest).take(digits.len() as int) == digits,
        (digits + rest).skip(digits.len() as int) == rest,
{
    let s = digits + rest;
    assert forall|i: int| 0 <= i < digits.len() implies member(
        CharClass::Digit,
        #[trigger] s[i],
    ) by {
        assert(s[i] == digits[i]);
    }
    if digits.len() < s.len() {
        assert(s[digits.len() as int] == rest[0]);
    }
    lemma_run_len_is(s, CharClass::Digit, digits.len());
    assert(s.take(digits.len() as int) =~= digits);
    assert(s.skip(digits.len() as int) =~= rest);
}

/// Parsing the decimal text of a number that fits in 32 bits as a `number`
/// yields that number, and leaves what follows the text.
pub proof fn lemma_number_reads_decimal_text(n: nat, rest: Seq<char>)
    requires
        n <= i32::MAX,
        rest.len() == 0 || !is_digit(rest[0]),
    ensures
        grammar::number(decimal_text(n) + rest) == Ok::<(Seq<char>, Tree), ParseError>(
            (rest, Tree::Number { value: n as i32 }),
        ),
{
    lemma_decimal_text(n);
    lemma_digits_are_taken(decimal_text(n), rest);
}

/// Parsing a run of digits that stands for a number above `i32::MAX` as a
/// `number` fails with `Overflow`.
pub proof fn lemma_number_rejects_overflow(digits: Seq<char>, rest: Seq<char>)
    requires
        digits.len() > 0,
        forall|i: int| 0 <= i < digits.len() ==> is_digit(#[trigger] digits[i]),
        rest.len() == 0 || !is_digit(rest[0]),
        decimal_value(digits) > i32::MAX,
    ensures
        grammar::number(digits + rest) == Err::<(Seq<char>, Tree), ParseError>(
            ParseError::Overflow,
        ),
{
    lemma_digits_are_taken(digits, rest);
}

/// Two results of parsing one source text are the same: both hold the same
/// tree, or both the same error.
pub open spec fn same_parse(
    first: Result<Node, ParseError>,
    second: Result<Node, ParseError>,
) -> bool {
    match (first, second) {
        (Ok(a), Ok(b)) => a@ == b@,
        (Err(a), Err(b)) => a == b,
        _ => false,
    }
}

/// Parsing is deterministic: whatever `parse` returns for a source text, it
/// returns the same for the same text again.
pub proof fn lemma_parse_is_deterministic(
    source: Seq<char>,
    first: Result<Node, ParseError>,
    second: Result<Node, ParseError>,
)
    requires
        crate::parser::parsed_as(first, grammar::parse(source)),
        crate::parser::parsed_as(second, grammar::parse(source)),
    ensures
        same_parse(first, second),
{
}

/// A call of a name that the function table does not hold fails with
/// `UndefinedFunction`, whatever its arguments are, and leaves the frame as
/// it was.
pub proof fn lemma_undefined_function(
    table: Table,
    depth: nat,
    frame: Option<Bindings>,
    name: Seq<char>,
    args: Seq<Tree>,
)
    requires
        !table.contains_key(name),
    ensures
        semantics::eval(table, depth, frame, Tree::FunctionCall { name, children: args })
            == (Outcome { result: Err(EvalError::UndefinedFunction), frame }),
{
}

/// An identifier that the top frame does not bind fails with
/// `UndefinedVariable`, whatever the frames below hold.
pub proof fn lemma_undefined_variable(
    table: Table,
    depth: nat,
    frame: Option<Bindings>,
    name: Seq<char>,
)
    requires
        frame matches Some(vars) ==> !vars.contains_key(name),
    ensures
        semantics::eval(table, depth, frame, Tree::Identifier { value: name }) == (Outcome {
            result: Err(EvalError::UndefinedVariable),
            frame,
        }),
{
}

/// A call that passes a number of arguments other than the number of the
/// function's parameters fails with `ArityMismatch`: no argument is
/// evaluated, none is dropped and none made up.
pub proof fn lemma_arity_mismatch(
    table: Table,
    depth: nat,
    frame: Option<Bindings>,
    name: Seq<char>,
    args: Seq<Tree>,
)
    requires
        table.contains_key(name),
        table[name].params.len() != args.len(),
    ensures
        semantics::eval(table, depth, frame, Tree::FunctionCall { name, children: args })
            == (Outcome { result: Err(EvalError::ArityMismatch), frame }),
{
}

/// The first statement that fails ends the run of a body with its error:
/// no later statement runs.
pub proof fn lemma_failure_ends_body(
    table: Table,
    depth: nat,
    frame: Option<Bindings>,
    body: Seq<Tree>,
    i: nat,
    last: Result<Datum, EvalError>,
)
    requires
        i < body.len(),
        semantics::eval(table, depth, frame, body[i as int]).result is Err,
    ensures
        semantics::run_body(table, depth, frame, body, i, last) == semantics::eval(
            table,
            depth,
            frame,
            body[i as int],
        ),
{
}

/// The first `return` that is reached ends the run of a body with its
/// value: no later statement runs.
pub proof fn lemma_return_ends_body(
    table: Table,
    depth: nat,
    frame: Option<Bindings>,
    body: Seq<Tree>,
    i: nat,
    last: Result<Datum, EvalError>,
)
    requires
        i < body.len(),
        semantics::is_return(body[i as int]),
    ensures
        semantics::run_body(table, depth, frame, body, i, last) == semantics::eval(
            table,
            depth,
            frame,
            body[i as int],
        ),
{
}

/// A callee sees of its caller the values of the arguments and nothing
/// else: two calls from frames in which the arguments have the same values
/// end with the same result, whatever else the two frames bind.
pub proof fn lemma_callee_sees_arguments_only(
    table: Table,
    depth: nat,
    first: Option<Bindings>,
    second: Option<Bindings>,
    name: Seq<char>,
    args: Seq<Tree>,
)
    requires
        semantics::eval_each(table, depth, first, args, 0, Seq::empty()).result
            == semantics::eval_each(table, depth, second, args, 0, Seq::empty()).result,
    ensures
        semantics::eval(table, depth, first, Tree::FunctionCall { name, children: args }).result
            == semantics::eval(
            table,
            depth,
            second,
            Tree::FunctionCall { name, children: args },
        ).result,
{
}

/// A call leaves of the callee's frame nothing behind: the caller's frame
/// after the call is what the evaluation of the arguments made of it.
pub proof fn lemma_call_keeps_callers_frame(
    table: Table,
    depth: nat,
    frame: Option<Bindings>,
    name: Seq<char>,
    args: Seq<Tree>,
)
    requires
        table.contains_key(name),
        table[name].params.len() == args.len(),
    ensures
        semantics::eval(table, depth, frame, Tree::FunctionCall { name, children: args }).frame
            == semantics::eval_each(table, depth, frame, args, 0, Seq::empty()).frame,
{
}

} // verus!
