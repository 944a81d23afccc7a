//! Numbers and text as they stand on the wire.
//!
//! Digits are turned into numbers by `atoi`, bytes into text by the
//! standard library. Both are called here, behind contracts that say what
//! they return; the check that a number is spelled with digits alone is
//! made, and proved, before `atoi` sees it.

use crate::server::grammar::{decimal_of, is_decimal, is_digit};
use std::str::Utf8Error;
use std::string::FromUtf8Error;
use vstd::prelude::*;
use vstd::string::StringExecFns;
use vstd::utf8::{decode_utf8, valid_utf8};

verus! {

/// `std::str::Utf8Error`, opaque to the verifier.
#[verifier::external_type_specification]
#[verifier::external_body]
pub struct ExUtf8Error(Utf8Error);

/// `std::string::FromUtf8Error`, opaque to the verifier.
#[verifier::external_type_specification]
#[verifier::external_body]
pub struct ExFromUtf8Error(FromUtf8Error);

/// `atoi::atoi::<u64>` on a non-empty run of ASCII digits: the number they
/// spell, or `None` when it does not fit in 64 bits. The function also
/// takes a sign and stops at the first byte that is no digit; `requires`
/// keeps such input away from it.
#[verifier::external_body]
pub(crate) fn atoi_u64(text: &[u8]) -> (number: Option<u64>)
    requires
        is_decimal(text@),
    ensures
        number == decimal_of(text@),
{
    atoi::atoi::<u64>(text)
}

/// `std::str::from_utf8`: succeeds on valid UTF-8 and on nothing else, and
/// then gives the text that the bytes encode.
#[verifier::external_body]
pub(crate) fn str_from_utf8(bytes: &[u8]) -> (text: Result<&str, Utf8Error>)
    ensures
        text is Ok <==> valid_utf8(bytes@),
        text matches Ok(s) ==> s@ == decode_utf8(bytes@),
{
    std::str::from_utf8(bytes)
}

/// `String::from_utf8`: succeeds on valid UTF-8 and on nothing else, and
/// then gives the text that the bytes encode.
#[verifier::external_body]
pub(crate) fn string_from_utf8(bytes: Vec<u8>) -> (text: Result<String, FromUtf8Error>)
    ensures
        text is Ok <==> valid_utf8(bytes@),
        text matches Ok(s) ==> s@ == decode_utf8(bytes@),
{
    String::from_utf8(bytes)
}

/// Whether every byte of `text` is a decimal digit, and there is one.
pub fn all_digits(text: &[u8]) -> (yes: bool)
    ensures
        yes == is_decimal(text@),
{
    if text.len() == 0 {
        return false;
    }
    let mut i: usize = 0;
    while i < text.len()
        invariant
            i <= text.len(),
            forall|j: int| 0 <= j < i ==> is_digit(#[trigger] text@[j]),
        decreases text.len() - i,
    {
        let b: u8 = text[i];
        if b < 48 || b > 57 {
            return false;
        }
        i = i + 1;
    }
    true
}

/// Reads `text` as an unsigned decimal number. Digits only: no sign, no
/// blank, nothing after the last digit.
pub fn decimal(text: &[u8]) -> (number: Option<u64>)
    ensures
        number == decimal_of(text@),
{
    if all_digits(text) {
        atoi_u64(text)
    } else {
        None
    }
}

/// The character for the digit `d`.
pub open spec fn digit_char(d: nat) -> char {
    ((48 + d) as u8) as char
}

/// `n` written out in decimal, without leading zeros.
pub open spec fn decimal_text(n: nat) -> Seq<char>
    decreases n,
{
    if n < 10 {
        seq![digit_char(n)]
    } else {
        decimal_text(n / 10).push(digit_char(n % 10))
    }
}

/// The digit `d` as text.
fn digit_str(d: u64) -> (text: &'static str)
    requires
        d < 10,
    ensures
        text@ == seq![digit_char(d as nat)],
{
    proof {
        reveal_strlit("0");
        reveal_strlit("1");
        reveal_strlit("2");
        reveal_strlit("3");
        reveal_strlit("4");
        reveal_strlit("5");
        reveal_strlit("6");
        reveal_strlit("7");
        reveal_strlit("8");
        reveal_strlit("9");
    }
    let text: &'static str = if d == 0 {
        "0"
    } else if d == 1 {
        "1"
    } else if d == 2 {
        "2"
    } else if d == 3 {
        "3"
    } else if d == 4 {
        "4"
    } else if d == 5 {
        "5"
    } else if d == 6 {
        "6"
    } else if d == 7 {
        "7"
    } else if d == 8 {
        "8"
    } else {
        "9"
    };
    assert(text@ =~= seq![digit_char(d as nat)]);
    text
}

/// Appends `n`, written out in decimal, to `out`.
pub fn push_decimal(out: &mut String, n: u64)
    ensures
        final(out)@ == old(out)@ + decimal_text(n as nat),
    decreases n,
{
    if n >= 10 {
        push_decimal(out, n / 10);
    }
    out.append(digit_str(n % 10));
    assert(out@ =~= old(out)@ + decimal_text(n as nat));
}

} // verus!
