//! Reader for `KEY=VALUE` release files: the value of the first line whose
//! key matches, with one surrounding layer of double quotes stripped.
use vstd::prelude::*;

use crate::text::{
    chars_eq, chars_of, chars_to_string, copy_range, find_char, lemma_spec_find, push_str_chars,
    spec_find, spec_lines, split_lines, views_of,
};

verus! {

/// Whether the part of `l` before its first `=` equals `key`.  A line
/// without `=` never matches, so a lookup cannot trip over it.
pub open spec fn spec_kv_matches(l: Seq<char>, key: Seq<char>) -> bool {
    match spec_find(l, '=') {
        Some(i) => l.subrange(0, i) == key,
        None => false,
    }
}

/// One surrounding layer of double quotes removed, when both ends carry one.
pub open spec fn spec_strip_quotes(v: Seq<char>) -> Seq<char> {
    if v.len() >= 2 && v[0] == '"' && v.last() == '"' {
        v.subrange(1, v.len() - 1)
    } else {
        v
    }
}

/// The value of a `KEY=VALUE` line: everything after the first `=`,
/// quote-stripped.
pub open spec fn spec_kv_value(l: Seq<char>) -> Seq<char> {
    match spec_find(l, '=') {
        Some(i) => spec_strip_quotes(l.subrange(i + 1, l.len() as int)),
        None => l,
    }
}

/// The value of the first line whose key equals `key`; the scan stops at
/// the first match.
pub open spec fn spec_get_param(lines: Seq<Seq<char>>, key: Seq<char>) -> Option<Seq<char>>
    decreases lines.len(),
{
    if lines.len() == 0 {
        None
    } else if spec_kv_matches(lines[0], key) {
        Some(spec_kv_value(lines[0]))
    } else {
        spec_get_param(lines.drop_first(), key)
    }
}

/// The not-found reply for `key`.
pub open spec fn spec_key_not_found(key: Seq<char>) -> Seq<char> {
    "404 - key "@ + key + " not found"@
}

/// Looks `key` up in the text of a release file; a missing key yields an
/// explicit not-found string, never an error.
pub fn get_param(contents: &str, key: &str) -> (r: String)
    ensures
        match spec_get_param(spec_lines(contents@), key@) {
            Some(v) => r@ == v,
            None => r@ == spec_key_not_found(key@),
        },
{
    let cs = chars_of(contents);
    let lines = split_lines(cs.as_slice());
    let keyc = chars_of(key);
    let n = lines.len();
    let ghost lv = spec_lines(contents@);
    proof {
        assert(lv.subrange(0, n as int) =~= lv);
    }
    for i in 0..n
        invariant
            n == lines@.len(),
            views_of(lines@) == lv,
            lv == spec_lines(contents@),
            keyc@ == key@,
            spec_get_param(lv, key@) == spec_get_param(lv.subrange(i as int, n as int), key@),
    {
        proof {
            assert(lv.subrange(i as int, n as int)[0] == lines@[i as int]@);
            assert(lv.subrange(i as int, n as int).drop_first() =~= lv.subrange(i + 1, n as int));
        }
        let line = &lines[i];
        let m = line.len();
        match find_char(line.as_slice(), '=') {
            Some(ei) => {
                proof {
                    lemma_spec_find(line@, '=');
                }
                let left = copy_range(line.as_slice(), 0, ei);
                if chars_eq(left.as_slice(), keyc.as_slice()) {
                    let mut value = copy_range(line.as_slice(), ei + 1, m);
                    proof {
                        assert(line@.subrange(ei + 1, m as int) == line@.subrange(
                            ei + 1,
                            line@.len() as int,
                        ));
                    }
                    let vn = value.len();
                    if vn >= 2 && value.as_slice()[0] == '"' && value.as_slice()[vn - 1] == '"' {
                        let stripped = copy_range(value.as_slice(), 1, vn - 1);
                        return chars_to_string(&stripped);
                    }
                    return chars_to_string(&value);
                }
            },
            None => {
            },
        }
    }
    let mut out: Vec<char> = Vec::new();
    push_str_chars(&mut out, "404 - key ");
    push_str_chars(&mut out, key);
    push_str_chars(&mut out, " not found");
    proof {
        assert(out@ =~= spec_key_not_found(key@));
    }
    chars_to_string(&out)
}

/// The `NAME` field of the release file's text.
pub fn os_name(contents: &str) -> (r: String)
    ensures
        match spec_get_param(spec_lines(contents@), "NAME"@) {
            Some(v) => r@ == v,
            None => r@ == spec_key_not_found("NAME"@),
        },
{
    get_param(contents, "NAME")
}

/// The `VERSION_ID` field of the release file's text.
pub fn os_version(contents: &str) -> (r: String)
    ensures
        match spec_get_param(spec_lines(contents@), "VERSION_ID"@) {
            Some(v) => r@ == v,
            None => r@ == spec_key_not_found("VERSION_ID"@),
        },
{
    get_param(contents, "VERSION_ID")
}

/// The `UBUNTU_CODENAME` field of the release file's text.
pub fn os_codename(contents: &str) -> (r: String)
    ensures
        match spec_get_param(spec_lines(contents@), "UBUNTU_CODENAME"@) {
            Some(v) => r@ == v,
            None => r@ == spec_key_not_found("UBUNTU_CODENAME"@),
        },
{
    get_param(contents, "UBUNTU_CODENAME")
}

/// The `VERSION` field of the release file's text.
pub fn os_vernamename(contents: &str) -> (r: String)
    ensures
        match spec_get_param(spec_lines(contents@), "VERSION"@) {
            Some(v) => r@ == v,
            None => r@ == spec_key_not_found("VERSION"@),
        },
{
    get_param(contents, "VERSION")
}

} // verus!
