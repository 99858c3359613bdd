//! Interpretation of the update-checker's brief diagnostic line, a
//! semicolon-delimited pair of counts.
use vstd::prelude::*;
use vstd::string::StringExecFns;

use crate::text::{
    chars_of, chars_to_string, copy_range, find_char, lemma_spec_find, push_chars,
    push_str_chars, spec_find,
};

verus! {

/// The brief update summary: the text before the first semicolon is the
/// installable count, the text between the first and second semicolons (or
/// to the end) the security count.  Output without any semicolon carries
/// no counts and is reported as unexpected.
pub open spec fn spec_apt_brief(s: Seq<char>) -> Seq<char> {
    match spec_find(s, ';') {
        None => "apt-check: unexpected output"@,
        Some(i) => {
            let a = s.subrange(0, i);
            let rest = s.subrange(i + 1, s.len() as int);
            let b = match spec_find(rest, ';') {
                Some(j) => rest.subrange(0, j),
                None => rest,
            };
            "Installable: "@ + a + " - Security: "@ + b
        },
    }
}

/// Renders the update-checker's diagnostic line as
/// `"Installable: <a> - Security: <b>"`; malformed output degrades to an
/// explicit string rather than an error.
pub fn aptcheckbrief(diag: &str) -> (r: String)
    ensures
        r@ == spec_apt_brief(diag@),
{
    let cs = chars_of(diag);
    let n = cs.len();
    match find_char(cs.as_slice(), ';') {
        None => String::from_str("apt-check: unexpected output"),
        Some(i) => {
            proof {
                lemma_spec_find(cs@, ';');
            }
            let a = copy_range(cs.as_slice(), 0, i);
            let rest = copy_range(cs.as_slice(), i + 1, n);
            let b = match find_char(rest.as_slice(), ';') {
                Some(j) => {
                    proof {
                        lemma_spec_find(rest@, ';');
                    }
                    copy_range(rest.as_slice(), 0, j)
                },
                None => rest,
            };
            let mut out: Vec<char> = Vec::new();
            push_str_chars(&mut out, "Installable: ");
            push_chars(&mut out, a.as_slice());
            push_str_chars(&mut out, " - Security: ");
            push_chars(&mut out, b.as_slice());
            proof {
                assert(out@ =~= spec_apt_brief(diag@));
            }
            chars_to_string(&out)
        },
    }
}

} // verus!
