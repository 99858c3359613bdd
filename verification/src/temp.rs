//! Interpretation of a thermal-zone reading: one line holding a signed
//! integer count of millidegrees, reported in whole degrees.
use vstd::prelude::*;
use vstd::string::StringExecFns;

use crate::text::{
    chars_of, chars_to_string, push_decimal, spec_decimal, spec_digit_val, spec_is_digit,
    spec_trim, trim,
};

verus! {

/// The value of a digit string, most significant digit first.
pub open spec fn spec_digits_val(s: Seq<char>) -> nat
    decreases s.len(),
{
    if s.len() == 0 {
        0
    } else {
        spec_digits_val(s.drop_last()) * 10 + spec_digit_val(s.last())
    }
}

/// Every character is a decimal digit.
pub open spec fn spec_all_digits(s: Seq<char>) -> bool {
    forall|i: int| 0 <= i < s.len() ==> spec_is_digit(s[i])
}

/// An optional leading sign split off the digits: `-` negates, `+` is
/// accepted and dropped.
pub open spec fn spec_sign_split(t: Seq<char>) -> (bool, Seq<char>) {
    if t.len() > 0 && t[0] == '-' {
        (true, t.drop_first())
    } else if t.len() > 0 && t[0] == '+' {
        (false, t.drop_first())
    } else {
        (false, t)
    }
}

/// The largest accepted magnitude, that of a 32-bit signed reading.
pub open spec fn spec_milli_bound(neg: bool) -> nat {
    if neg {
        0x8000_0000
    } else {
        0x7fff_ffff
    }
}

/// A trimmed line parsed as a signed 32-bit integer: its sign and
/// magnitude, or nothing when a character is not a digit, no digit is
/// present, or the value is out of range.
pub open spec fn spec_parse_milli(t: Seq<char>) -> Option<(bool, nat)> {
    let (neg, ds) = spec_sign_split(t);
    if ds.len() > 0 && spec_all_digits(ds) && spec_digits_val(ds) <= spec_milli_bound(neg) {
        Some((neg, spec_digits_val(ds)))
    } else {
        None
    }
}

/// Millidegrees rendered as whole degrees: division by 1000 truncated
/// toward zero, a zero result never carrying a sign.
pub open spec fn spec_temp_render(neg: bool, mag: nat) -> Seq<char> {
    let q = mag / 1000;
    if neg && q > 0 {
        seq!['-'] + spec_decimal(q)
    } else {
        spec_decimal(q)
    }
}

/// The value of a digit prefix never exceeds the value of the whole
/// digit string.
proof fn lemma_digits_val_prefix(s: Seq<char>, i: int)
    requires
        0 <= i <= s.len(),
    ensures
        spec_digits_val(s.subrange(0, i)) <= spec_digits_val(s),
    decreases s.len() - i,
{
    if i == s.len() {
        assert(s.subrange(0, i) =~= s);
    } else {
        assert(s.subrange(0, i + 1).drop_last() =~= s.subrange(0, i));
        lemma_digits_val_prefix(s, i + 1);
    }
}

fn digit_of(c: char) -> (r: Option<u64>)
    ensures
        match r {
            Some(v) => spec_is_digit(c) && v as nat == spec_digit_val(c),
            None => !spec_is_digit(c),
        },
{
    if c == '0' {
        Some(0)
    } else if c == '1' {
        Some(1)
    } else if c == '2' {
        Some(2)
    } else if c == '3' {
        Some(3)
    } else if c == '4' {
        Some(4)
    } else if c == '5' {
        Some(5)
    } else if c == '6' {
        Some(6)
    } else if c == '7' {
        Some(7)
    } else if c == '8' {
        Some(8)
    } else if c == '9' {
        Some(9)
    } else {
        None
    }
}

/// Reports a thermal zone's temperature in whole degrees.  `line` is
/// `None` when the zone's file is absent, which this hardware reports as
/// unsupported; a line that does not parse as a 32-bit integer degrades to
/// an explicit string rather than an error.
pub fn temp(line: Option<&str>) -> (r: String)
    ensures
        match line {
            Some(l) => match spec_parse_milli(spec_trim(l@)) {
                Some((neg, mag)) => r@ == spec_temp_render(neg, mag),
                None => r@ == "404 - sensor unreadable"@,
            },
            None => r@ == "404 - Not odroid XU4 "@,
        },
{
    match line {
        None => String::from_str("404 - Not odroid XU4 "),
        Some(l) => {
            let cs = chars_of(l);
            let t = trim(cs.as_slice());
            let n = t.len();
            let mut start: usize = 0;
            let mut neg = false;
            if n > 0 && t.as_slice()[0] == '-' {
                neg = true;
                start = 1;
            } else if n > 0 && t.as_slice()[0] == '+' {
                start = 1;
            }
            let ghost ds = spec_sign_split(spec_trim(l@)).1;
            proof {
                assert(ds =~= t@.subrange(start as int, n as int));
            }
            if start == n {
                return String::from_str("404 - sensor unreadable");
            }
            let bound: u64 = if neg {
                0x8000_0000
            } else {
                0x7fff_ffff
            };
            let mut val: u64 = 0;
            for i in start..n
                invariant
                    line == Some(l),
                    start <= i <= n == t@.len(),
                    start < n,
                    t@ == spec_trim(l@),
                    (neg, ds) == spec_sign_split(spec_trim(l@)),
                    ds == t@.subrange(start as int, n as int),
                    bound as nat == spec_milli_bound(neg),
                    val == spec_digits_val(t@.subrange(start as int, i as int)),
                    val <= bound,
                    forall|j: int| start <= j < i ==> spec_is_digit(t@[j]),
            {
                let c = t.as_slice()[i];
                match digit_of(c) {
                    None => {
                        proof {
                            assert(ds[i - start] == t@[i as int]);
                            assert(!spec_all_digits(ds));
                        }
                        return String::from_str("404 - sensor unreadable");
                    },
                    Some(d) => {
                        let nv = val * 10 + d;
                        proof {
                            assert(t@.subrange(start as int, i + 1).drop_last() =~= t@.subrange(
                                start as int,
                                i as int,
                            ));
                            assert(t@.subrange(start as int, i + 1).last() == t@[i as int]);
                        }
                        if nv > bound {
                            proof {
                                assert(ds.subrange(0, i + 1 - start) =~= t@.subrange(
                                    start as int,
                                    i + 1,
                                ));
                                lemma_digits_val_prefix(ds, i + 1 - start);
                                assert(spec_digits_val(ds) > spec_milli_bound(neg));
                            }
                            return String::from_str("404 - sensor unreadable");
                        }
                        val = nv;
                    },
                }
            }
            proof {
                assert(t@.subrange(start as int, n as int) == ds);
                assert(spec_all_digits(ds));
                assert(spec_parse_milli(spec_trim(l@)) == Some((neg, val as nat)));
            }
            let q: u64 = val / 1000;
            let mut out: Vec<char> = Vec::new();
            if neg && q > 0 {
                out.push('-');
            }
            push_decimal(&mut out, q as u128);
            proof {
                assert(out@ =~= spec_temp_render(neg, val as nat));
            }
            chars_to_string(&out)
        },
    }
}

} // verus!
