//! Naming the partitions of a disk.
use vstd::prelude::*;
use crate::text::{chars_of, decimal, push_all, push_decimal, push_str, slice, spells, text_of};

verus! {

/// `s` without every leading `/dev/`, as `str::trim_start_matches` gives it.
pub open spec fn strip_dev(s: Seq<char>) -> Seq<char>
    decreases s.len(),
{
    if s.len() >= 5 && s.subrange(0, 5) == "/dev/"@ {
        strip_dev(s.subrange(5, s.len() as int))
    } else {
        s
    }
}

pub open spec fn starts_with(s: Seq<char>, p: Seq<char>) -> bool {
    s.len() >= p.len() && s.subrange(0, p.len() as int) == p
}

/// The path of partition `n` of `disk`: `/dev/<disk><n>`, with a `p` before
/// the number for NVMe and MMC devices, whose names end in a digit.
pub open spec fn part_path_spec(disk: Seq<char>, n: u8) -> Seq<char> {
    let base = strip_dev(disk);
    if starts_with(base, "nvme"@) || starts_with(base, "mmcblk"@) {
        "/dev/"@ + base + "p"@ + decimal(n as nat)
    } else {
        "/dev/"@ + base + decimal(n as nat)
    }
}

fn starts_with_at(v: &Vec<char>, lo: usize, p: &str) -> (r: bool)
    requires
        lo <= v.len(),
    ensures
        r == starts_with(v@.subrange(lo as int, v.len() as int), p@),
{
    let w = chars_of(p);
    if v.len() - lo < w.len() {
        return false;
    }
    let r = spells(v, lo, lo + w.len(), p);
    assert(v@.subrange(lo as int, v.len() as int).subrange(0, w.len() as int) =~= v@.subrange(
        lo as int,
        lo + w.len(),
    ));
    r
}

/// `disk` without every leading `/dev/`.
pub fn device_base(disk: &str) -> (r: String)
    ensures
        r@ == strip_dev(disk@),
{
    let v = chars_of(disk);
    let i = base_start(&v);
    text_of(&slice(&v, i, v.len()))
}

fn base_start(v: &Vec<char>) -> (i: usize)
    ensures
        i <= v.len(),
        v@.subrange(i as int, v.len() as int) == strip_dev(v@),
{
    let mut i: usize = 0;
    proof {
        reveal_strlit("/dev/");
        assert(v@.subrange(0, v.len() as int) =~= v@);
    }
    while v.len() - i >= 5 && spells(v, i, i + 5, "/dev/")
        invariant
            i <= v.len(),
            "/dev/"@.len() == 5,
            strip_dev(v@.subrange(i as int, v.len() as int)) == strip_dev(v@),
        decreases v.len() - i,
    {
        proof {
            let s = v@.subrange(i as int, v.len() as int);
            assert(s.subrange(0, 5) =~= v@.subrange(i as int, i + 5));
            assert(s.subrange(5, s.len() as int) =~= v@.subrange(i + 5, v.len() as int));
        }
        i = i + 5;
    }
    proof {
        let s = v@.subrange(i as int, v.len() as int);
        if s.len() >= 5 {
            assert(s.subrange(0, 5) =~= v@.subrange(i as int, i + 5));
        }
        assert(strip_dev(s) == s);
    }
    i
}

/// The path of partition `n` of `disk` (e.g. `/dev/sda` and 1 give
/// `/dev/sda1`, `/dev/nvme0n1` and 1 give `/dev/nvme0n1p1`).
pub fn part_path(disk: &str, n: u8) -> (r: String)
    ensures
        r@ == part_path_spec(disk@, n),
{
    let v = chars_of(disk);
    let i = base_start(&v);
    let base = slice(&v, i, v.len());
    let split = starts_with_at(&v, i, "nvme") || starts_with_at(&v, i, "mmcblk");
    let mut out: Vec<char> = Vec::new();
    push_str(&mut out, "/dev/");
    push_all(&mut out, &base);
    if split {
        push_str(&mut out, "p");
    }
    push_decimal(&mut out, n as u64);
    text_of(&out)
}

} // verus!
