//! Installation parameters chosen by the operator.
use vstd::prelude::*;
use crate::text::{chars_of, spells};

verus! {

/// The partitions that the installation uses, by role.
#[derive(Debug, Clone)]
pub struct Config {
    pub efi_partition: String,
    pub swap_partition: Option<String>,
    pub root_partition: String,
}

/// Which Linux kernel variant to install.
#[derive(Debug, Clone, Copy, PartialEq, Eq, Structural)]
pub enum KernelVariant {
    Stable,
    Lts,
    Zen,
}

/// The token that stands for a kernel variant in the checkpoint record.
pub open spec fn kernel_token(k: KernelVariant) -> Seq<char> {
    match k {
        KernelVariant::Stable => "stable"@,
        KernelVariant::Lts => "lts"@,
        KernelVariant::Zen => "zen"@,
    }
}

/// The kernel variant that a stored token names; an unknown token reads as
/// the stable kernel.
pub open spec fn kernel_of_token(s: Seq<char>) -> KernelVariant {
    if s == "lts"@ {
        KernelVariant::Lts
    } else if s == "zen"@ {
        KernelVariant::Zen
    } else {
        KernelVariant::Stable
    }
}

/// Every variant reads back from its own token.
pub proof fn lemma_kernel_token(k: KernelVariant)
    ensures
        kernel_of_token(kernel_token(k)) == k,
{
    reveal_strlit("stable");
    reveal_strlit("lts");
    reveal_strlit("zen");
    assert("stable"@ != "lts"@) by {
        assert("stable"@.len() != "lts"@.len());
    }
    assert("stable"@ != "zen"@) by {
        assert("stable"@.len() != "zen"@.len());
    }
    assert("zen"@ != "lts"@) by {
        assert("zen"@[0] != "lts"@[0]);
    }
}

impl KernelVariant {
    /// The package name for this variant.
    pub fn package_name(self) -> (r: &'static str)
        ensures
            r@ == match self {
                KernelVariant::Stable => "linux"@,
                KernelVariant::Lts => "linux-lts"@,
                KernelVariant::Zen => "linux-zen"@,
            },
    {
        match self {
            KernelVariant::Stable => "linux",
            KernelVariant::Lts => "linux-lts",
            KernelVariant::Zen => "linux-zen",
        }
    }

    /// Human-readable label shown to the operator.
    pub fn display_name(self) -> (r: &'static str)
        ensures
            r@ == match self {
                KernelVariant::Stable => "Linux stable"@,
                KernelVariant::Lts => "Linux LTS (long-term support)"@,
                KernelVariant::Zen => "Linux Zen (performance-optimized)"@,
            },
    {
        match self {
            KernelVariant::Stable => "Linux stable",
            KernelVariant::Lts => "Linux LTS (long-term support)",
            KernelVariant::Zen => "Linux Zen (performance-optimized)",
        }
    }

    /// The token written to the checkpoint record.
    pub fn as_str(self) -> (r: &'static str)
        ensures
            r@ == kernel_token(self),
    {
        match self {
            KernelVariant::Stable => "stable",
            KernelVariant::Lts => "lts",
            KernelVariant::Zen => "zen",
        }
    }

    /// The variant that a stored token names; unknown tokens give `Stable`.
    pub fn from_str(s: &str) -> (r: KernelVariant)
        ensures
            r == kernel_of_token(s@),
    {
        let v = chars_of(s);
        assert(v@.subrange(0, v.len() as int) =~= s@);
        Self::from_chars(&v, 0, v.len())
    }

    /// The variant that `v[lo..hi]` names; unknown tokens give `Stable`.
    pub fn from_chars(v: &Vec<char>, lo: usize, hi: usize) -> (r: KernelVariant)
        requires
            lo <= hi <= v.len(),
        ensures
            r == kernel_of_token(v@.subrange(lo as int, hi as int)),
    {
        if spells(v, lo, hi, "lts") {
            KernelVariant::Lts
        } else if spells(v, lo, hi, "zen") {
            KernelVariant::Zen
        } else {
            KernelVariant::Stable
        }
    }
}

} // verus!
