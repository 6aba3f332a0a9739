//! Wording of operand counts.

use crate::text::{decimal, push_decimal};
use vstd::prelude::*;

verus! {

/// The phrase for a number of operands: singular for one, plural otherwise.
pub open spec fn pluralize_spec(count: nat) -> Seq<char> {
    if count == 1 {
        "1 operand"@
    } else {
        decimal(count) + " operands"@
    }
}

/// The phrase for a number of operands: singular for one, plural otherwise.
pub fn pluralize(count: usize) -> (r: String)
    ensures
        r@ == pluralize_spec(count as nat),
{
    if count == 1 {
        String::from_str("1 operand")
    } else {
        let mut s = String::new();
        push_decimal(&mut s, count as u64);
        s.append(" operands");
        s
    }
}

/// The message for an instruction given `found` operands where it takes
/// `expected`; nothing when they agree.
pub fn operand_amount_message(expected: usize, found: usize) -> (r: Option<String>)
    ensures
        expected == found <==> r is None,
        r matches Some(m) ==> m@ == "expected "@ + pluralize_spec(expected as nat) + ", found "@
            + decimal(found as nat),
{
    if expected == found {
        None
    } else {
        let mut s = String::from_str("expected ");
        let p = pluralize(expected);
        s.append(p.as_str());
        s.append(", found ");
        push_decimal(&mut s, found as u64);
        Some(s)
    }
}

} // verus!
