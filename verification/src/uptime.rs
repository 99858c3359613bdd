//! Rendering of a whole-second uptime as days, hours, minutes and seconds.
use vstd::prelude::*;

use crate::text::{chars_to_string, push_decimal, push_str_chars, spec_decimal};

verus! {

/// `"{d}d {h}h {m}m {s}s"` for the given number of elapsed seconds,
/// decomposed by integer division with remainders.
pub open spec fn spec_uptime(s: nat) -> Seq<char> {
    let m = s / 60;
    let h = m / 60;
    let d = h / 24;
    spec_decimal(d) + "d "@ + spec_decimal(h % 24) + "h "@ + spec_decimal(m % 60) + "m "@
        + spec_decimal(s % 60) + "s"@
}

/// Formats an uptime measured in whole seconds.
pub fn uptime(secs: u64) -> (r: String)
    ensures
        r@ == spec_uptime(secs as nat),
{
    let m: u64 = secs / 60;
    let sd: u64 = secs % 60;
    let h: u64 = m / 60;
    let md: u64 = m % 60;
    let d: u64 = h / 24;
    let hd: u64 = h % 24;
    let mut out: Vec<char> = Vec::new();
    push_decimal(&mut out, d as u128);
    push_str_chars(&mut out, "d ");
    push_decimal(&mut out, hd as u128);
    push_str_chars(&mut out, "h ");
    push_decimal(&mut out, md as u128);
    push_str_chars(&mut out, "m ");
    push_decimal(&mut out, sd as u128);
    push_str_chars(&mut out, "s");
    proof {
        assert(out@ =~= spec_uptime(secs as nat));
    }
    chars_to_string(&out)
}

} // verus!
