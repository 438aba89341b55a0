//! The lines that a run prints: one for each reading of a reference count.

use crate::error::QueryError;
use vstd::prelude::*;
use vstd::string::StringExecFns;

verus! {

/// The character of a decimal digit.
pub open spec fn digit(d: nat) -> char
    recommends
        d < 10,
{
    if d == 0 {
        '0'
    } else if d == 1 {
        '1'
    } else if d == 2 {
        '2'
    } else if d == 3 {
        '3'
    } else if d == 4 {
        '4'
    } else if d == 5 {
        '5'
    } else if d == 6 {
        '6'
    } else if d == 7 {
        '7'
    } else if d == 8 {
        '8'
    } else {
        '9'
    }
}

/// The decimal numeral of `n`, without leading zeros.
pub open spec fn decimal(n: nat) -> Seq<char>
    decreases n,
{
    if n < 10 {
        seq![digit(n)]
    } else {
        decimal(n / 10).push(digit(n % 10))
    }
}

/// The decimal numeral of `i`, with a minus sign where it is negative.
pub open spec fn signed_decimal(i: int) -> Seq<char> {
    if i < 0 {
        seq!['-'] + decimal((-i) as nat)
    } else {
        decimal(i as nat)
    }
}

/// The digit that a character stands for; zero for any other character.
pub open spec fn digit_value(c: char) -> nat {
    if c == '1' {
        1
    } else if c == '2' {
        2
    } else if c == '3' {
        3
    } else if c == '4' {
        4
    } else if c == '5' {
        5
    } else if c == '6' {
        6
    } else if c == '7' {
        7
    } else if c == '8' {
        8
    } else if c == '9' {
        9
    } else {
        0
    }
}

/// The number that a string of digits is the decimal numeral of.
pub open spec fn numeral_value(digits: Seq<char>) -> nat
    decreases digits.len(),
{
    if digits.len() == 0 {
        0
    } else {
        10 * numeral_value(digits.drop_last()) + digit_value(digits.last())
    }
}

/// The line for a count that was read.
pub open spec fn count_line(label: Seq<char>, iteration: int, count: nat) -> Seq<char> {
    "RC for buffer created in iteration "@ + signed_decimal(iteration) + ", after "@ + label
        + " is: "@ + decimal(count)
}

/// The line for a count that could not be read.
pub open spec fn failure_line(iteration: int) -> Seq<char> {
    "Failed to get RC for buffer created in iteration "@ + signed_decimal(iteration)
}

/// The line for the outcome of a reading.
pub open spec fn reading_line(
    label: Seq<char>,
    iteration: int,
    reading: Result<u128, QueryError>,
) -> Seq<char> {
    match reading {
        Ok(count) => count_line(label, iteration, count as nat),
        Err(_) => failure_line(iteration),
    }
}

/// The numeral of one digit.
fn digit_str(d: u128) -> (text: &'static str)
    requires
        d < 10,
    ensures
        text@ == seq![digit(d as nat)],
{
    proof {
        reveal_strlit("0");
        reveal_strlit("1");
        reveal_strlit("2");
        reveal_strlit("3");
        reveal_strlit("4");
        reveal_strlit("5");
        reveal_strlit("6");
        reveal_strlit("7");
        reveal_strlit("8");
        reveal_strlit("9");
    }
    match d {
        0 => "0",
        1 => "1",
        2 => "2",
        3 => "3",
        4 => "4",
        5 => "5",
        6 => "6",
        7 => "7",
        8 => "8",
        _ => "9",
    }
}

/// Appends the decimal numeral of `n`.
fn push_decimal(out: &mut String, n: u128)
    ensures
        final(out)@ == old(out)@ + decimal(n as nat),
    decreases n,
{
    if n >= 10 {
        push_decimal(out, n / 10);
    }
    out.append(digit_str(n % 10));
}

/// Appends the decimal numeral of `i`, with its sign where it is negative.
fn push_signed_decimal(out: &mut String, i: i32)
    ensures
        final(out)@ == old(out)@ + signed_decimal(i as int),
{
    if i < 0 {
        proof {
            reveal_strlit("-");
        }
        out.append("-");
        let magnitude: u128 = (0 - (i as i64)) as u128;
        push_decimal(out, magnitude);
    } else {
        push_decimal(out, i as u128);
    }
}

/// The line that reports a reading of the reference count of the buffer made
/// in `iteration`, taken after the step named by `label`: the count where the
/// reading gave one, and a line that says so where it failed.
pub fn ref_count_line(label: &str, iteration: i32, reading: Result<u128, QueryError>) -> (line:
    String)
    ensures
        line@ == reading_line(label@, iteration as int, reading),
{
    match reading {
        Ok(count) => {
            let mut line = String::from_str("RC for buffer created in iteration ");
            push_signed_decimal(&mut line, iteration);
            line.append(", after ");
            line.append(label);
            line.append(" is: ");
            push_decimal(&mut line, count);
            line
        },
        Err(_) => {
            let mut line = String::from_str("Failed to get RC for buffer created in iteration ");
            push_signed_decimal(&mut line, iteration);
            line
        },
    }
}

} // verus!
