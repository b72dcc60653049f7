//! The values that a result row holds, and how each is shown.

use vstd::prelude::*;
use vstd::string::StringExecFns;
use base64::Engine;

verus! {

/// A value of a result row.
pub enum Value {
    /// The null value.
    Null,
    /// A signed integer.
    Integer(i64),
    /// A real number, held as its decimal text.
    Real(String),
    /// A text.
    Text(String),
    /// Binary data.
    Blob(Vec<u8>),
}

/// The character that stands for the digit `d`.
pub open spec fn digit(d: int) -> char {
    seq!['0', '1', '2', '3', '4', '5', '6', '7', '8', '9'][d]
}

/// The decimal digits of `n`, most significant first, without leading zeros.
pub open spec fn digits(n: nat) -> Seq<char>
    decreases n,
{
    if n < 10 {
        seq![digit(n as int)]
    } else {
        digits(n / 10).push(digit(n as int % 10))
    }
}

/// The decimal text of `i`: its digits, behind a minus sign if `i` is
/// negative.
pub open spec fn decimal(i: int) -> Seq<char> {
    if i < 0 {
        seq!['-'] + digits((-i) as nat)
    } else {
        digits(i as nat)
    }
}

/// The base64 text of `bytes` in the standard alphabet, without padding.
pub uninterp spec fn base64_no_pad(bytes: Seq<u8>) -> Seq<char>;

/// The length of the unpadded base64 text of `n` bytes: four characters for
/// every three bytes, and two or three for one or two bytes that are left.
pub open spec fn base64_len(n: nat) -> nat {
    n / 3 * 4 + if n % 3 == 0 {
        0nat
    } else {
        n % 3 + 1
    }
}

/// How `value` is shown: `null` for the null value, an integer as its
/// decimal text, a real number and a text as they are, and binary data as
/// `0x` followed by its unpadded base64 text.
pub open spec fn shown(value: Value) -> Seq<char> {
    match value {
        Value::Null => "null"@,
        Value::Integer(i) => decimal(i as int),
        Value::Real(text) => text@,
        Value::Text(text) => text@,
        Value::Blob(bytes) => "0x"@ + base64_no_pad(bytes@),
    }
}

/// Whether `value` can be shown: the text of binary data must not be longer
/// than a text can be.
pub open spec fn showable(value: Value) -> bool {
    value matches Value::Blob(bytes) ==> base64_len(bytes@.len()) <= usize::MAX
}

/// Calls `encode` of `base64`, on the engine `STANDARD_NO_PAD`. The result is
/// the unpadded base64 text of `bytes`, which `base64_no_pad` names. The call
/// panics where the length of that text exceeds `usize::MAX`.
#[verifier::external_body]
fn encode_base64(bytes: &Vec<u8>) -> (text: String)
    requires
        base64_len(bytes@.len()) <= usize::MAX,
    ensures
        text@ == base64_no_pad(bytes@),
{
    base64::engine::general_purpose::STANDARD_NO_PAD.encode(bytes)
}

/// The text of one digit.
fn digit_text(d: u64) -> (text: &'static str)
    requires
        d < 10,
    ensures
        text@ == seq![digit(d as int)],
{
    proof {
        reveal_strlit("0");
        reveal_strlit("1");
        reveal_strlit("2");
        reveal_strlit("3");
        reveal_strlit("4");
        reveal_strlit("5");
        reveal_strlit("6");
        reveal_strlit("7");
        reveal_strlit("8");
        reveal_strlit("9");
    }
    let text = if d == 0 {
        "0"
    } else if d == 1 {
        "1"
    } else if d == 2 {
        "2"
    } else if d == 3 {
        "3"
    } else if d == 4 {
        "4"
    } else if d == 5 {
        "5"
    } else if d == 6 {
        "6"
    } else if d == 7 {
        "7"
    } else if d == 8 {
        "8"
    } else {
        "9"
    };
    text
}

/// Appends the decimal digits of `n` to `text`.
fn push_digits(n: u64, text: &mut String)
    ensures
        final(text)@ == old(text)@ + digits(n as nat),
    decreases n,
{
    if n >= 10 {
        push_digits(n / 10, text);
    }
    text.append(digit_text(n % 10));
}

/// The decimal text of `i`.
pub fn format_integer(i: i64) -> (text: String)
    ensures
        text@ == decimal(i as int),
{
    let mut text = String::new();
    if i < 0 {
        proof {
            reveal_strlit("-");
        }
        text.append("-");
        let magnitude: u64 = (-(i + 1)) as u64 + 1;
        push_digits(magnitude, &mut text);
    } else {
        push_digits(i as u64, &mut text);
    }
    text
}

/// Shows `value` in human-readable form.
pub fn format_value(value: &Value) -> (text: String)
    requires
        showable(*value),
    ensures
        text@ == shown(*value),
{
    match value {
        Value::Null => String::from_str("null"),
        Value::Integer(i) => format_integer(*i),
        Value::Real(inner) => inner.clone(),
        Value::Text(inner) => inner.clone(),
        Value::Blob(bytes) => {
            let mut text = String::from_str("0x");
            let encoded = encode_base64(bytes);
            text.append(encoded.as_str());
            text
        },
    }
}

} // verus!
