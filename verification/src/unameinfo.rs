//! Selection of one field of the machine's kernel identification by its
//! single-letter name.
use vstd::prelude::*;
use vstd::string::StringExecFns;

use crate::text::{chars_eq, chars_of};

verus! {

/// The kernel identification fields, as plain strings.
pub struct UnameData {
    pub nodename: String,
    pub sysname: String,
    pub release: String,
    pub version: String,
    pub machine: String,
}

/// The five selector letters are pairwise distinct.
proof fn lemma_selectors_distinct()
    ensures
        "n"@ != "s"@,
        "n"@ != "r"@,
        "n"@ != "v"@,
        "n"@ != "m"@,
        "s"@ != "r"@,
        "s"@ != "v"@,
        "s"@ != "m"@,
        "r"@ != "v"@,
        "r"@ != "m"@,
        "v"@ != "m"@,
{
    reveal_strlit("n");
    reveal_strlit("s");
    reveal_strlit("r");
    reveal_strlit("v");
    reveal_strlit("m");
    assert("n"@[0] == 'n' && "s"@[0] == 's' && "r"@[0] == 'r' && "v"@[0] == 'v' && "m"@[0]
        == 'm');
}

/// Picks the field named by the selector `n`, `s`, `r`, `v` or `m`; any
/// other selector is reported as an unknown parameter.
pub fn unameinfo(param: &str, info: &UnameData) -> (r: String)
    ensures
        param@ == "n"@ ==> r@ == info.nodename@,
        param@ == "s"@ ==> r@ == info.sysname@,
        param@ == "r"@ ==> r@ == info.release@,
        param@ == "v"@ ==> r@ == info.version@,
        param@ == "m"@ ==> r@ == info.machine@,
        param@ != "n"@ && param@ != "s"@ && param@ != "r"@ && param@ != "v"@ && param@ != "m"@
            ==> r@ == "Param?"@,
{
    proof {
        lemma_selectors_distinct();
    }
    let pc = chars_of(param);
    if chars_eq(pc.as_slice(), chars_of("n").as_slice()) {
        info.nodename.clone()
    } else if chars_eq(pc.as_slice(), chars_of("s").as_slice()) {
        info.sysname.clone()
    } else if chars_eq(pc.as_slice(), chars_of("r").as_slice()) {
        info.release.clone()
    } else if chars_eq(pc.as_slice(), chars_of("v").as_slice()) {
        info.version.clone()
    } else if chars_eq(pc.as_slice(), chars_of("m").as_slice()) {
        info.machine.clone()
    } else {
        String::from_str("Param?")
    }
}

} // verus!
