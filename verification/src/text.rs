//! Messages assembled from literals and decimal numbers.
use vstd::prelude::*;
use vstd::string::StringExecFns;

verus! {

/// Character of a decimal digit.
pub open spec fn digit(value: nat) -> char {
    ('0' as u8 + value) as char
}

/// Decimal form of a number, without leading zeros.
pub open spec fn decimal(value: nat) -> Seq<char>
    decreases value,
{
    if value < 10 {
        seq![digit(value)]
    } else {
        decimal(value / 10).push(digit(value % 10))
    }
}

fn digit_text(value: u64) -> (r: &'static str)
    requires
        value < 10,
    ensures
        r@ == seq![digit(value as nat)],
{
    proof {
        reveal_strlit("0");
        reveal_strlit("1");
        reveal_strlit("2");
        reveal_strlit("3");
        reveal_strlit("4");
        reveal_strlit("5");
        reveal_strlit("6");
        reveal_strlit("7");
        reveal_strlit("8");
        reveal_strlit("9");
    }
    let text: &'static str = match value {
        0 => "0",
        1 => "1",
        2 => "2",
        3 => "3",
        4 => "4",
        5 => "5",
        6 => "6",
        7 => "7",
        8 => "8",
        _ => "9",
    };
    assert(text@ =~= seq![digit(value as nat)]);
    text
}

/// Appends a number in decimal form.
pub fn push_decimal(output: &mut String, value: u64)
    ensures
        final(output)@ == old(output)@ + decimal(value as nat),
    decreases value,
{
    let ghost before = output@;
    if value >= 10 {
        push_decimal(output, value / 10);
    }
    output.append(digit_text(value % 10));
    assert(output@ =~= before + decimal(value as nat));
}

/// Text with a number behind it.
pub fn with_decimal(text: String, value: u64) -> (r: String)
    ensures
        r@ == text@ + decimal(value as nat),
{
    let mut output = text;
    push_decimal(&mut output, value);
    output
}

/// Text with another text behind it.
pub fn with_text(text: String, more: &str) -> (r: String)
    ensures
        r@ == text@ + more@,
{
    text.concat(more)
}

/// Owned copy of a text.
pub fn owned(text: &str) -> (r: String)
    ensures
        r@ == text@,
{
    String::from_str(text)
}

} // verus!
