//! Building the text of log messages and names.

use vstd::prelude::*;
use vstd::string::StringExecFns;

verus! {

/// The character for a single decimal digit.
pub open spec fn digit_char(d: int) -> char {
    if d == 0 {
        '0'
    } else if d == 1 {
        '1'
    } else if d == 2 {
        '2'
    } else if d == 3 {
        '3'
    } else if d == 4 {
        '4'
    } else if d == 5 {
        '5'
    } else if d == 6 {
        '6'
    } else if d == 7 {
        '7'
    } else if d == 8 {
        '8'
    } else {
        '9'
    }
}

/// The decimal digits of a natural number, without leading zeros.
pub open spec fn decimal_digits(n: nat) -> Seq<char>
    decreases n,
{
    if n < 10 {
        seq![digit_char(n as int)]
    } else {
        decimal_digits(n / 10).push(digit_char((n % 10) as int))
    }
}

/// The decimal text of an integer, with a minus sign if it is negative.
pub open spec fn decimal_text(n: int) -> Seq<char> {
    if n < 0 {
        seq!['-'] + decimal_digits((-n) as nat)
    } else {
        decimal_digits(n as nat)
    }
}

fn digit_str(d: u128) -> (s: &'static str)
    requires
        d < 10,
    ensures
        s@ == seq![digit_char(d as int)],
{
    proof {
        reveal_strlit("0");
        reveal_strlit("1");
        reveal_strlit("2");
        reveal_strlit("3");
        reveal_strlit("4");
        reveal_strlit("5");
        reveal_strlit("6");
        reveal_strlit("7");
        reveal_strlit("8");
        reveal_strlit("9");
    }
    let s = if d == 0 {
        "0"
    } else if d == 1 {
        "1"
    } else if d == 2 {
        "2"
    } else if d == 3 {
        "3"
    } else if d == 4 {
        "4"
    } else if d == 5 {
        "5"
    } else if d == 6 {
        "6"
    } else if d == 7 {
        "7"
    } else if d == 8 {
        "8"
    } else {
        "9"
    };
    s
}

fn push_digits(out: &mut String, n: u128)
    ensures
        final(out)@ == old(out)@ + decimal_digits(n as nat),
    decreases n,
{
    if n >= 10 {
        push_digits(out, n / 10);
    }
    out.append(digit_str(n % 10));
}

/// Appends the decimal text of `n` to `out`.
pub fn push_decimal(out: &mut String, n: i64)
    ensures
        final(out)@ == old(out)@ + decimal_text(n as int),
{
    if n < 0 {
        proof {
            reveal_strlit("-");
        }
        out.append("-");
        let magnitude: u128 = (-(n as i128)) as u128;
        push_digits(out, magnitude);
    } else {
        push_digits(out, n as u128);
    }
}

/// The log entry for a blow that did `damage`.
pub open spec fn hit_text(attacker: Seq<char>, target: Seq<char>, damage: int) -> Seq<char> {
    " "@ + attacker + " hit "@ + target + " for "@ + decimal_text(damage) + " hp."@
}

/// The log entry for a blow that did nothing.
pub open spec fn miss_text(attacker: Seq<char>, target: Seq<char>) -> Seq<char> {
    " "@ + attacker + " is unable to hurt "@ + target
}

/// The name of the monster of kind `kind` that was spawned as number
/// `number`.
pub open spec fn numbered_name_text(kind: Seq<char>, number: int) -> Seq<char> {
    kind + " #"@ + decimal_text(number)
}

/// Builds the log entry for a blow that did `damage`.
pub fn hit_message(attacker: &str, target: &str, damage: i64) -> (message: String)
    ensures
        message@ == hit_text(attacker@, target@, damage as int),
{
    let mut message = String::from_str(" ");
    message.append(attacker);
    message.append(" hit ");
    message.append(target);
    message.append(" for ");
    push_decimal(&mut message, damage);
    message.append(" hp.");
    message
}

/// Builds the log entry for a blow that did nothing.
pub fn miss_message(attacker: &str, target: &str) -> (message: String)
    ensures
        message@ == miss_text(attacker@, target@),
{
    let mut message = String::from_str(" ");
    message.append(attacker);
    message.append(" is unable to hurt ");
    message.append(target);
    message
}

/// Builds the name of a numbered monster, such as `Orc #3`.
pub fn numbered_name(kind: &str, number: usize) -> (name: String)
    ensures
        name@ == numbered_name_text(kind@, number as int),
{
    let mut name = String::from_str(kind);
    name.append(" #");
    push_digits(&mut name, number as u128);
    name
}

} // verus!
