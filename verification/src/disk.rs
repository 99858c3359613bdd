//! Formatting of filesystem capacity statistics: byte counts through the
//! unit formatter, integer percentages, and the raw inode total.
use vstd::prelude::*;
use vstd::string::StringExecFns;

use vstd::arithmetic::div_mod::{lemma_div_is_ordered, lemma_div_multiples_vanish};
use vstd::arithmetic::mul::{lemma_mul_inequality, lemma_mul_upper_bound};

use crate::bytesize::{byte_size, spec_byte_size};
use crate::text::{chars_eq, chars_of, chars_to_string, push_decimal, push_str_chars, spec_decimal};

verus! {

/// Capacity figures reported by the filesystem-statistics call for one
/// mount point, all in blocks of `block_size` bytes except the inode total.
pub struct DiskStats {
    pub block_size: u64,
    pub blocks: u64,
    pub blocks_free: u64,
    pub blocks_avail: u64,
    pub files: u64,
}

/// A byte count clamped to the largest machine-representable value; the
/// product of two in-range block figures never reaches it in practice.
pub open spec fn spec_cap_u64(x: nat) -> nat {
    if x > u64::MAX {
        u64::MAX as nat
    } else {
        x
    }
}

/// The path a mount-point name resolves to: `root` stands for `/`, any
/// other name for `/<name>`.
pub open spec fn spec_resolve(m: Seq<char>) -> Seq<char> {
    if m == "root"@ {
        "/"@
    } else {
        "/"@ + m
    }
}

/// The free-block percentage, by integer division.
pub open spec fn spec_freep(st: DiskStats) -> nat {
    (st.blocks_free * 100) as nat / st.blocks as nat
}

/// The used-block percentage: the complement of `spec_freep`, floored at
/// zero when the probe reports more free than total blocks.
pub open spec fn spec_usedp(st: DiskStats) -> nat {
    if spec_freep(st) > 100 {
        0
    } else {
        (100 - spec_freep(st)) as nat
    }
}

/// When no more blocks are free than exist, the free and used percentages
/// are complementary.
pub proof fn lemma_disk_percent_sum(st: DiskStats)
    requires
        st.blocks > 0,
        st.blocks_free <= st.blocks,
    ensures
        spec_freep(st) <= 100,
        spec_freep(st) + spec_usedp(st) == 100,
{
    lemma_mul_inequality(st.blocks_free as int, st.blocks as int, 100);
    lemma_div_is_ordered(
        st.blocks_free as int * 100,
        st.blocks as int * 100,
        st.blocks as int,
    );
    lemma_div_multiples_vanish(100, st.blocks as int);
}

/// The six metric names are pairwise distinct.
proof fn lemma_metric_names_distinct()
    ensures
        "avail"@ != "total"@,
        "avail"@ != "free"@,
        "avail"@ != "freep"@,
        "avail"@ != "usedp"@,
        "avail"@ != "files"@,
        "total"@ != "free"@,
        "total"@ != "freep"@,
        "total"@ != "usedp"@,
        "total"@ != "files"@,
        "free"@ != "freep"@,
        "free"@ != "usedp"@,
        "free"@ != "files"@,
        "freep"@ != "usedp"@,
        "freep"@ != "files"@,
        "usedp"@ != "files"@,
{
    reveal_strlit("avail");
    reveal_strlit("total");
    reveal_strlit("free");
    reveal_strlit("freep");
    reveal_strlit("usedp");
    reveal_strlit("files");
    assert("avail"@[0] == 'a' && "total"@[0] == 't' && "free"@[0] == 'f' && "freep"@[0] == 'f'
        && "usedp"@[0] == 'u' && "files"@[0] == 'f');
    assert("free"@.len() == 4 && "freep"@.len() == 5 && "files"@.len() == 5);
    assert("freep"@[1] == 'r' && "files"@[1] == 'i');
}

/// Resolves a mount-point name to the probed path.
pub fn resolve_mount(mountpoint: &str) -> (r: String)
    ensures
        r@ == spec_resolve(mountpoint@),
{
    let mc = chars_of(mountpoint);
    let rootc = chars_of("root");
    let mut out: Vec<char> = Vec::new();
    push_str_chars(&mut out, "/");
    if !chars_eq(mc.as_slice(), rootc.as_slice()) {
        push_str_chars(&mut out, mountpoint);
    }
    proof {
        assert(out@ =~= spec_resolve(mountpoint@));
    }
    chars_to_string(&out)
}

/// Formats one capacity metric of a mount point.  `stats` is `None` when
/// the statistics call failed, which yields an explicit error string naming
/// the resolved path; a zero total-block count yields an explicit string
/// instead of a division; an unrecognized metric name is reported as such.
pub fn disk(mountpoint: &str, param: &str, stats: Option<&DiskStats>) -> (r: String)
    ensures
        stats is None ==> r@ == "io error on disk: "@ + spec_resolve(mountpoint@),
        stats matches Some(st) ==> {
            &&& param@ == "avail"@ ==> r@ == spec_byte_size(
                spec_cap_u64(st.blocks_avail as nat * st.block_size as nat),
            )
            &&& param@ == "total"@ ==> r@ == spec_byte_size(
                spec_cap_u64(st.blocks as nat * st.block_size as nat),
            )
            &&& param@ == "free"@ ==> r@ == spec_byte_size(
                spec_cap_u64(st.blocks_free as nat * st.block_size as nat),
            )
            &&& param@ == "freep"@ && st.blocks == 0 ==> r@ == "no capacity data"@
            &&& param@ == "freep"@ && st.blocks > 0 ==> r@ == spec_decimal(spec_freep(*st))
                + "%"@
            &&& param@ == "usedp"@ && st.blocks == 0 ==> r@ == "no capacity data"@
            &&& param@ == "usedp"@ && st.blocks > 0 ==> r@ == spec_decimal(spec_usedp(*st))
                + "%"@
            &&& param@ == "files"@ ==> r@ == spec_decimal(st.files as nat)
            &&& param@ != "avail"@ && param@ != "total"@ && param@ != "free"@ && param@
                != "freep"@ && param@ != "usedp"@ && param@ != "files"@ ==> r@
                == "unknown param"@
        },
{
    proof {
        lemma_metric_names_distinct();
    }
    match stats {
        None => {
            let mut out: Vec<char> = Vec::new();
            push_str_chars(&mut out, "io error on disk: ");
            let target = resolve_mount(mountpoint);
            push_str_chars(&mut out, target.as_str());
            proof {
                assert(out@ =~= "io error on disk: "@ + spec_resolve(mountpoint@));
            }
            chars_to_string(&out)
        },
        Some(st) => {
            let pc = chars_of(param);
            if chars_eq(pc.as_slice(), chars_of("avail").as_slice()) {
                byte_size(mul_capped(st.blocks_avail, st.block_size))
            } else if chars_eq(pc.as_slice(), chars_of("total").as_slice()) {
                byte_size(mul_capped(st.blocks, st.block_size))
            } else if chars_eq(pc.as_slice(), chars_of("free").as_slice()) {
                byte_size(mul_capped(st.blocks_free, st.block_size))
            } else if chars_eq(pc.as_slice(), chars_of("freep").as_slice()) {
                if st.blocks == 0 {
                    String::from_str("no capacity data")
                } else {
                    let fp: u128 = st.blocks_free as u128 * 100 / st.blocks as u128;
                    let mut out: Vec<char> = Vec::new();
                    push_decimal(&mut out, fp);
                    push_str_chars(&mut out, "%");
                    proof {
                        assert(out@ =~= spec_decimal(spec_freep(*st)) + "%"@);
                    }
                    chars_to_string(&out)
                }
            } else if chars_eq(pc.as_slice(), chars_of("usedp").as_slice()) {
                if st.blocks == 0 {
                    String::from_str("no capacity data")
                } else {
                    let fp: u128 = st.blocks_free as u128 * 100 / st.blocks as u128;
                    let up: u128 = if fp > 100 {
                        0
                    } else {
                        100 - fp
                    };
                    let mut out: Vec<char> = Vec::new();
                    push_decimal(&mut out, up);
                    push_str_chars(&mut out, "%");
                    proof {
                        assert(out@ =~= spec_decimal(spec_usedp(*st)) + "%"@);
                    }
                    chars_to_string(&out)
                }
            } else if chars_eq(pc.as_slice(), chars_of("files").as_slice()) {
                let mut out: Vec<char> = Vec::new();
                push_decimal(&mut out, st.files as u128);
                chars_to_string(&out)
            } else {
                String::from_str("unknown param")
            }
        },
    }
}

/// The product of a block count and a block size, clamped to the largest
/// machine-representable byte count.
fn mul_capped(a: u64, b: u64) -> (r: u64)
    ensures
        r as nat == spec_cap_u64(a as nat * b as nat),
{
    proof {
        lemma_mul_upper_bound(a as int, u64::MAX as int, b as int, u64::MAX as int);
    }
    let prod: u128 = a as u128 * b as u128;
    if prod > u64::MAX as u128 {
        u64::MAX
    } else {
        prod as u64
    }
}

} // verus!
