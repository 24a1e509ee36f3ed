//! The title and message that announce a transition.
use crate::tracker::{Transition, TransitionView};
use vstd::prelude::*;
use vstd::string::StringExecFns;

verus! {

/// The character of a decimal digit below ten.
pub open spec fn digit_char(d: nat) -> char {
    seq!['0', '1', '2', '3', '4', '5', '6', '7', '8', '9'][d as int]
}

/// The decimal digits of a natural number, most significant first.
pub open spec fn digits_of(n: nat) -> Seq<char>
    decreases n,
{
    if n < 10 {
        seq![digit_char(n)]
    } else {
        digits_of(n / 10).push(digit_char(n % 10))
    }
}

/// An integer written in decimal, with a leading minus sign when negative.
pub open spec fn decimal_text(n: int) -> Seq<char> {
    if n < 0 {
        seq!['-'] + digits_of((-n) as nat)
    } else {
        digits_of(n as nat)
    }
}

/// Relies on `i64`'s `Display` (through `ToString::to_string`): the number in
/// decimal, a minus sign before a negative one.
#[verifier::external_body]
fn decimal(n: i64) -> (r: String)
    ensures
        r@ == decimal_text(n as int),
{
    n.to_string()
}

/// The title of the notification for a change to `now`.
pub open spec fn title_text(now: bool) -> Seq<char> {
    if now {
        "Product Available"@
    } else {
        "Product Unavailable"@
    }
}

/// The message that names the product and its new state.
pub open spec fn message_text(t: TransitionView) -> Seq<char> {
    "Sku: "@ + decimal_text(t.sku as int) + " aka \""@ + t.name + "\" is "@ + (if t.now {
        "available"@
    } else {
        "no longer available"@
    })
}

/// The title for a transition: its direction decides it.
pub fn title(t: &Transition) -> (r: String)
    ensures
        r@ == title_text(t.now),
{
    if t.now {
        String::from_str("Product Available")
    } else {
        String::from_str("Product Unavailable")
    }
}

/// The message for a transition, naming the product by number and name.
pub fn message(t: &Transition) -> (r: String)
    ensures
        r@ == message_text(t@),
{
    let mut r = String::from_str("Sku: ");
    let digits = decimal(t.sku);
    r.append(digits.as_str());
    r.append(" aka \"");
    r.append(t.name.as_str());
    r.append("\" is ");
    if t.now {
        r.append("available");
    } else {
        r.append("no longer available");
    }
    r
}

} // verus!
