//! Accounts, transactions and the engine that applies one to the other, and how numbers are
//! written where any of them is rendered as text.

use vstd::prelude::*;
use vstd::string::StringExecFns;
use crate::ledger::account::{Amount, Balance};

pub mod account;
pub mod engine;
pub mod theorems;
pub mod transaction;

verus! {

/// The character of a decimal digit.
pub open spec fn digit(d: int) -> char {
    if d == 0 {
        '0'
    } else if d == 1 {
        '1'
    } else if d == 2 {
        '2'
    } else if d == 3 {
        '3'
    } else if d == 4 {
        '4'
    } else if d == 5 {
        '5'
    } else if d == 6 {
        '6'
    } else if d == 7 {
        '7'
    } else if d == 8 {
        '8'
    } else {
        '9'
    }
}

/// A natural number in decimal, without leading zeros.
pub open spec fn decimal(n: nat) -> Seq<char>
    decreases n,
{
    if n < 10 {
        seq![digit(n as int)]
    } else {
        decimal(n / 10).push(digit((n % 10) as int))
    }
}

/// A number of ten-thousandths as a decimal fraction with four digits after the point: a minus
/// sign if it is negative, the whole part, a point, and the four digits.
pub open spec fn fixed_4dp(units: int) -> Seq<char> {
    let size = if units < 0 {
        -units
    } else {
        units
    };
    let sign = if units < 0 {
        seq!['-']
    } else {
        Seq::<char>::empty()
    };
    sign + decimal((size / 10000) as nat) + seq![
        '.',
        digit(size / 1000 % 10),
        digit(size / 100 % 10),
        digit(size / 10 % 10),
        digit(size % 10),
    ]
}

/// An amount that may be absent: nothing stands for an absent one.
pub open spec fn fixed_4dp_or_none(units: Option<Amount>) -> Seq<char> {
    match units {
        Some(units) => fixed_4dp(units as int),
        None => Seq::<char>::empty(),
    }
}

/// Lines of text as one text: the lines that follow the header each start on a new line, and no
/// line break stands at the end.
pub open spec fn lines(header: Seq<char>, rows: Seq<Seq<char>>) -> Seq<char>
    decreases rows.len(),
{
    if rows.len() == 0 {
        header
    } else {
        lines(header, rows.drop_last()) + seq!['\n'] + rows.last()
    }
}

/// The text of one decimal digit.
fn digit_text(d: u8) -> (text: &'static str)
    requires
        d < 10,
    ensures
        text@ == seq![digit(d as int)],
{
    proof {
        reveal_strlit("0");
        reveal_strlit("1");
        reveal_strlit("2");
        reveal_strlit("3");
        reveal_strlit("4");
        reveal_strlit("5");
        reveal_strlit("6");
        reveal_strlit("7");
        reveal_strlit("8");
        reveal_strlit("9");
    }
    let text = match d {
        0 => "0",
        1 => "1",
        2 => "2",
        3 => "3",
        4 => "4",
        5 => "5",
        6 => "6",
        7 => "7",
        8 => "8",
        _ => "9",
    };
    assert(text@ =~= seq![digit(d as int)]);
    text
}

/// Appends a natural number in decimal.
pub(crate) fn push_decimal(text: &mut String, n: u128)
    ensures
        final(text)@ == old(text)@ + decimal(n as nat),
    decreases n,
{
    if n >= 10 {
        push_decimal(text, n / 10);
    }
    text.append(digit_text((n % 10) as u8));
    assert(text@ =~= old(text)@ + decimal(n as nat));
}

/// Appends a number of ten-thousandths as a decimal fraction with four digits after the point.
pub(crate) fn push_4dp(text: &mut String, val: Balance)
    ensures
        final(text)@ == old(text)@ + fixed_4dp(val as int),
{
    let size: u128 = if val < 0 {
        text.append("-");
        ((-(val + 1)) as u128) + 1
    } else {
        val as u128
    };
    proof {
        reveal_strlit("-");
        reveal_strlit(".");
    }
    push_decimal(text, size / 10000);
    text.append(".");
    text.append(digit_text((size / 1000 % 10) as u8));
    text.append(digit_text((size / 100 % 10) as u8));
    text.append(digit_text((size / 10 % 10) as u8));
    text.append(digit_text((size % 10) as u8));
    assert(text@ =~= old(text)@ + fixed_4dp(val as int));
}

/// Renders a number of ten-thousandths with four digits after the decimal point.
pub fn serialize_4dp(val: Balance) -> (text: String)
    ensures
        text@ == fixed_4dp(val as int),
{
    let mut text = String::new();
    push_4dp(&mut text, val);
    text
}

/// Renders an amount that may be absent: as [`serialize_4dp`] does, or as nothing at all.
pub fn serialize_4dp_or_none(val: Option<Amount>) -> (text: String)
    ensures
        text@ == fixed_4dp_or_none(val),
{
    let mut text = String::new();
    if let Some(val) = val {
        push_4dp(&mut text, val as i128);
    }
    text
}

} // verus!
