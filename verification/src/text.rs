//! Numbers and lists of them in text, for diagnostic output.

use vstd::prelude::*;

verus! {

/// The digit of a number less than ten.
pub open spec fn digit(n: int) -> char {
    (48 + n) as char
}

/// A number in decimal notation.
pub open spec fn decimal(n: nat) -> Seq<char>
    decreases n,
{
    if n < 10 {
        seq![digit(n as int)]
    } else {
        decimal(n / 10).push(digit(n as int % 10))
    }
}

/// A signed number in decimal notation.
pub open spec fn signed_decimal(n: int) -> Seq<char> {
    if n < 0 {
        "-"@ + decimal((-n) as nat)
    } else {
        decimal(n as nat)
    }
}

/// A number that may be missing.
pub open spec fn optional_decimal(n: Option<u64>) -> Seq<char> {
    match n {
        Some(n) => "Some("@ + decimal(n as nat) + ")"@,
        None => "None"@,
    }
}

/// A number with a label before it, or nothing if the number is missing.
pub open spec fn labelled(label: Seq<char>, n: Option<u64>) -> Seq<char> {
    match n {
        Some(n) => label + decimal(n as nat),
        None => seq![],
    }
}

/// A value that is shown under a label in diagnostic output.
#[derive(Clone, Copy, Debug, PartialEq, Eq)]
pub enum Field {
    /// A number.
    Number(u64),
    /// A number that may be missing.
    Optional(Option<u64>),
}

/// A number under a label, or nothing if the number is missing.
pub open spec fn optional_field(label: Seq<char>, n: Option<u64>) -> Seq<(Seq<char>, Field)> {
    match n {
        Some(n) => seq![(label, Field::Number(n))],
        None => seq![],
    }
}

/// The fields, each with its label as text.
pub open spec fn labels(fields: Seq<(&'static str, Field)>) -> Seq<(Seq<char>, Field)> {
    Seq::new(fields.len(), |i: int| (fields[i].0@, fields[i].1))
}

/// Add a field.
pub(crate) fn push_field(fields: &mut Vec<(&'static str, Field)>, label: &'static str, field: Field)
    ensures
        labels(final(fields)@) == labels(old(fields)@) + seq![(label@, field)],
{
    fields.push((label, field));
    assert(labels(fields@) =~= labels(old(fields)@) + seq![(label@, field)]);
}

/// Add the number as a field, unless it is missing.
pub(crate) fn push_optional_field(
    fields: &mut Vec<(&'static str, Field)>,
    label: &'static str,
    n: Option<u64>,
)
    ensures
        labels(final(fields)@) == labels(old(fields)@) + optional_field(label@, n),
{
    match n {
        Some(n) => {
            push_field(fields, label, Field::Number(n));
        },
        None => {
            assert(labels(fields@) =~= labels(old(fields)@) + optional_field(label@, n));
        },
    }
}

/// The digit of a number less than ten.
fn digit_str(n: u64) -> (text: &'static str)
    requires
        n < 10,
    ensures
        text@ == seq![digit(n as int)],
{
    proof {
        reveal_strlit("0");
        reveal_strlit("1");
        reveal_strlit("2");
        reveal_strlit("3");
        reveal_strlit("4");
        reveal_strlit("5");
        reveal_strlit("6");
        reveal_strlit("7");
        reveal_strlit("8");
        reveal_strlit("9");
    }
    match n {
        0 => "0",
        1 => "1",
        2 => "2",
        3 => "3",
        4 => "4",
        5 => "5",
        6 => "6",
        7 => "7",
        8 => "8",
        _ => "9",
    }
}

/// Add a number in decimal notation.
pub(crate) fn push_decimal(text: &mut String, n: u64)
    ensures
        final(text)@ == old(text)@ + decimal(n as nat),
    decreases n,
{
    if n >= 10 {
        push_decimal(text, n / 10);
    }
    text.append(digit_str(n % 10));
    assert(text@ =~= old(text)@ + decimal(n as nat));
}

/// Add a signed number in decimal notation.
pub(crate) fn push_signed(text: &mut String, n: i32)
    ensures
        final(text)@ == old(text)@ + signed_decimal(n as int),
{
    let wide: i64 = n as i64;
    if wide < 0 {
        text.append("-");
        push_decimal(text, (-wide) as u64);
    } else {
        push_decimal(text, wide as u64);
    }
    assert(text@ =~= old(text)@ + signed_decimal(n as int));
}

/// Add a number that may be missing.
pub(crate) fn push_optional(text: &mut String, n: Option<u64>)
    ensures
        final(text)@ == old(text)@ + optional_decimal(n),
{
    match n {
        Some(n) => {
            text.append("Some(");
            push_decimal(text, n);
            text.append(")");
        },
        None => {
            text.append("None");
        },
    }
    assert(text@ =~= old(text)@ + optional_decimal(n));
}

/// Add a number with a label before it, or nothing if the number is missing.
pub(crate) fn push_labelled(text: &mut String, label: &str, n: Option<u64>)
    ensures
        final(text)@ == old(text)@ + labelled(label@, n),
{
    match n {
        Some(n) => {
            text.append(label);
            push_decimal(text, n);
        },
        None => {},
    }
    assert(text@ =~= old(text)@ + labelled(label@, n));
}

} // verus!
