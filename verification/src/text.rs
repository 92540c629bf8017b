//! The texts that the registry produces: error messages and a greeting.

use vstd::prelude::*;
use vstd::string::*;

verus! {

/// The ten decimal digits, in order.
pub open spec fn digits() -> Seq<char> {
    seq!['0', '1', '2', '3', '4', '5', '6', '7', '8', '9']
}

/// Decimal notation of `n`, without leading zeros.
pub open spec fn decimal(n: nat) -> Seq<char>
    decreases n,
{
    if n < 10 {
        seq![digits()[n as int]]
    } else {
        decimal(n / 10).push(digits()[(n % 10) as int])
    }
}

/// Message of a lookup that found no record under `id`.
pub open spec fn missing_text(id: u64) -> Seq<char> {
    "an equipment with id="@ + decimal(id as nat) + " not found"@
}

/// Message of an update that found no record under `id`.
pub open spec fn update_missing_text(id: u64) -> Seq<char> {
    "couldn't update an equipment with id="@ + decimal(id as nat) + ". equipment not found"@
}

/// Message of a deletion that found no record under `id`.
pub open spec fn delete_missing_text(id: u64) -> Seq<char> {
    "couldn't delete an equipment with id="@ + decimal(id as nat) + ". equipment not found."@
}

/// Greeting for `name`.
pub open spec fn greeting(name: Seq<char>) -> Seq<char> {
    "Hello, "@ + name + "!"@
}

/// The one-character text of a decimal digit.
fn digit_text(d: u64) -> (text: &'static str)
    requires
        d < 10,
    ensures
        text@ == seq![digits()[d as int]],
{
    proof {
        reveal_strlit("0");
        reveal_strlit("1");
        reveal_strlit("2");
        reveal_strlit("3");
        reveal_strlit("4");
        reveal_strlit("5");
        reveal_strlit("6");
        reveal_strlit("7");
        reveal_strlit("8");
        reveal_strlit("9");
    }
    let text = if d == 0 {
        "0"
    } else if d == 1 {
        "1"
    } else if d == 2 {
        "2"
    } else if d == 3 {
        "3"
    } else if d == 4 {
        "4"
    } else if d == 5 {
        "5"
    } else if d == 6 {
        "6"
    } else if d == 7 {
        "7"
    } else if d == 8 {
        "8"
    } else {
        "9"
    };
    assert(text@ =~= seq![digits()[d as int]]);
    text
}

/// Appends the decimal notation of `n` to `out`.
pub fn push_decimal(out: &mut String, n: u64)
    ensures
        final(out)@ == old(out)@ + decimal(n as nat),
    decreases n,
{
    if n >= 10 {
        push_decimal(out, n / 10);
    }
    out.append(digit_text(n % 10));
    assert(final(out)@ =~= old(out)@ + decimal(n as nat));
}

/// `head`, the decimal notation of `id`, then `tail`.
fn around_id(head: &str, id: u64, tail: &str) -> (text: String)
    ensures
        text@ == head@ + decimal(id as nat) + tail@,
{
    let mut text = String::from_str(head);
    push_decimal(&mut text, id);
    text.append(tail);
    text
}

/// The message of a lookup that found no record under `id`.
pub fn missing_message(id: u64) -> (msg: String)
    ensures
        msg@ == missing_text(id),
{
    around_id("an equipment with id=", id, " not found")
}

/// The message of an update that found no record under `id`.
pub fn update_missing_message(id: u64) -> (msg: String)
    ensures
        msg@ == update_missing_text(id),
{
    around_id("couldn't update an equipment with id=", id, ". equipment not found")
}

/// The message of a deletion that found no record under `id`.
pub fn delete_missing_message(id: u64) -> (msg: String)
    ensures
        msg@ == delete_missing_text(id),
{
    around_id("couldn't delete an equipment with id=", id, ". equipment not found.")
}

/// Greets `name`.
pub fn greet(name: String) -> (text: String)
    ensures
        text@ == greeting(name@),
{
    let mut text = String::from_str("Hello, ");
    text.append(name.as_str());
    text.append("!");
    text
}

} // verus!
