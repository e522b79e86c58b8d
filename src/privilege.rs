//! Whether the installer runs with root privilege, read from the process
//! status text (`/proc/self/status`).
use vstd::prelude::*;
use crate::error::InstallerError;
use crate::steps::partition::starts_with;
use crate::text::{
    chars_of, find, find_in, is_whitespace, lemma_trim_start, spells, trim_start, unsigned_part,
    white,
};

verus! {

/// Number of non-whitespace characters at the start of `t`.
pub open spec fn lead_run(t: Seq<char>) -> nat
    decreases t.len(),
{
    if t.len() > 0 && !white(t[0]) {
        1 + lead_run(t.drop_first())
    } else {
        0
    }
}

/// The second whitespace-separated token of `s`, if it has one.
pub open spec fn second_token(s: Seq<char>) -> Option<Seq<char>> {
    let t1 = trim_start(s);
    let t2 = trim_start(t1.subrange(lead_run(t1) as int, t1.len() as int));
    if t1.len() == 0 || t2.len() == 0 {
        None
    } else {
        Some(t2.subrange(0, lead_run(t2) as int))
    }
}

/// The first line of `text` that starts with `Uid:`.
pub open spec fn uid_line(text: Seq<char>) -> Option<Seq<char>>
    decreases text.len(),
{
    let e = find(text, '\n');
    let line = text.subrange(0, e as int);
    if starts_with(line, "Uid:"@) {
        Some(line)
    } else if e < text.len() {
        uid_line(text.subrange(e + 1int, text.len() as int))
    } else {
        None
    }
}

/// Whether `tok` reads as the number 0: an optional plus sign and one or
/// more zeros.
pub open spec fn reads_zero(tok: Seq<char>) -> bool {
    let d = unsigned_part(tok);
    d.len() > 0 && forall|j: int| 0 <= j < d.len() ==> #[trigger] d[j] == '0'
}

/// Whether the status text shows a real user id of 0.
pub open spec fn is_root(status: Seq<char>) -> bool {
    match uid_line(status) {
        Some(line) => match second_token(line) {
            Some(tok) => reads_zero(tok),
            None => false,
        },
        None => false,
    }
}

proof fn lemma_lead_run(t: Seq<char>, k: int)
    requires
        0 <= k <= t.len(),
        forall|j: int| 0 <= j < k ==> !white(#[trigger] t[j]),
        k == t.len() || white(t[k]),
    ensures
        lead_run(t) == k,
    decreases k,
{
    if k > 0 {
        let u = t.drop_first();
        assert forall|j: int| 0 <= j < k - 1 implies !white(#[trigger] u[j]) by {
            assert(u[j] == t[j + 1]);
        }
        lemma_lead_run(u, k - 1);
    }
}

fn skip_white(v: &Vec<char>, lo: usize, hi: usize) -> (r: usize)
    requires
        lo <= hi <= v.len(),
    ensures
        lo <= r <= hi,
        v@.subrange(r as int, hi as int) == trim_start(v@.subrange(lo as int, hi as int)),
{
    let mut i = lo;
    while i < hi && is_whitespace(v[i])
        invariant
            lo <= i <= hi <= v.len(),
            forall|j: int| lo <= j < i ==> white(#[trigger] v@[j]),
        decreases hi - i,
    {
        i = i + 1;
    }
    proof {
        let s = v@.subrange(lo as int, hi as int);
        assert forall|j: int| 0 <= j < i - lo implies white(#[trigger] s[j]) by {
            assert(s[j] == v@[lo + j]);
        }
        lemma_trim_start(s, i - lo);
        assert(s.subrange(i - lo, s.len() as int) =~= v@.subrange(i as int, hi as int));
    }
    i
}

fn skip_token(v: &Vec<char>, lo: usize, hi: usize) -> (r: usize)
    requires
        lo <= hi <= v.len(),
    ensures
        lo <= r <= hi,
        r - lo == lead_run(v@.subrange(lo as int, hi as int)),
{
    let mut i = lo;
    while i < hi && !is_whitespace(v[i])
        invariant
            lo <= i <= hi <= v.len(),
            forall|j: int| lo <= j < i ==> !white(#[trigger] v@[j]),
        decreases hi - i,
    {
        i = i + 1;
    }
    proof {
        let s = v@.subrange(lo as int, hi as int);
        assert forall|j: int| 0 <= j < i - lo implies !white(#[trigger] s[j]) by {
            assert(s[j] == v@[lo + j]);
        }
        lemma_lead_run(s, i - lo);
    }
    i
}

fn zero_token(v: &Vec<char>, lo: usize, hi: usize) -> (r: bool)
    requires
        lo <= hi <= v.len(),
    ensures
        r == reads_zero(v@.subrange(lo as int, hi as int)),
{
    let start = if lo < hi && v[lo] == '+' { lo + 1 } else { lo };
    let ghost d = v@.subrange(start as int, hi as int);
    assert(d =~= unsigned_part(v@.subrange(lo as int, hi as int)));
    if start == hi {
        return false;
    }
    let mut i = start;
    while i < hi
        invariant
            start <= i <= hi <= v.len(),
            d == v@.subrange(start as int, hi as int),
            d == unsigned_part(v@.subrange(lo as int, hi as int)),
            d.len() > 0,
            forall|j: int| start <= j < i ==> #[trigger] v@[j] == '0',
        decreases hi - i,
    {
        if v[i] != '0' {
            assert(d[i - start] != '0');
            return false;
        }
        i = i + 1;
    }
    assert forall|j: int| 0 <= j < d.len() implies #[trigger] d[j] == '0' by {
        assert(d[j] == v@[start + j]);
    }
    true
}

fn root_line(v: &Vec<char>, lo: usize, hi: usize) -> (r: bool)
    requires
        lo <= hi <= v.len(),
    ensures
        r == match second_token(v@.subrange(lo as int, hi as int)) {
            Some(tok) => reads_zero(tok),
            None => false,
        },
{
    let ghost s = v@.subrange(lo as int, hi as int);
    let a = skip_white(v, lo, hi);
    let b = skip_token(v, a, hi);
    let ghost t1 = trim_start(s);
    assert(t1 == v@.subrange(a as int, hi as int));
    assert(t1.subrange(lead_run(t1) as int, t1.len() as int) =~= v@.subrange(b as int, hi as int));
    let c = skip_white(v, b, hi);
    let d = skip_token(v, c, hi);
    let ghost t2 = v@.subrange(c as int, hi as int);
    assert(t2.subrange(0, lead_run(t2) as int) =~= v@.subrange(c as int, d as int));
    if a == hi || c == hi {
        return false;
    }
    zero_token(v, c, d)
}

/// Succeeds when the status text shows that the process runs as root; a
/// missing text, or one without a readable `Uid:` line, counts as not root.
pub fn check_root(status: Option<&str>) -> (r: Result<(), InstallerError>)
    ensures
        r is Ok <==> (status matches Some(t) && is_root(t@)),
        r is Err ==> r == Err::<(), InstallerError>(InstallerError::NotRoot),
{
    let t = match status {
        None => return Err(InstallerError::NotRoot),
        Some(t) => t,
    };
    let v = chars_of(t);
    let n = v.len();
    let mut start: usize = 0;
    assert(v@.subrange(0, n as int) =~= v@);
    loop
        invariant
            n == v.len(),
            v@ == t@,
            status == Some(t),
            start <= n,
            uid_line(v@.subrange(start as int, n as int)) == uid_line(t@),
        decreases n - start,
    {
        let ghost rest = v@.subrange(start as int, n as int);
        let e = find_in(&v, start, n, '\n');
        assert(rest.subrange(0, e - start) =~= v@.subrange(start as int, e as int));
        let is_uid = e - start >= 4 && spells(&v, start, start + 4, "Uid:");
        proof {
            reveal_strlit("Uid:");
            let line = v@.subrange(start as int, e as int);
            if line.len() >= 4 {
                assert(line.subrange(0, 4) =~= v@.subrange(start as int, start + 4));
            }
            assert(is_uid == starts_with(line, "Uid:"@));
            if is_uid {
                assert(uid_line(rest) == Some(line));
            }
        }
        if is_uid {
            if root_line(&v, start, e) {
                return Ok(());
            } else {
                return Err(InstallerError::NotRoot);
            }
        }
        if e == n {
            assert(uid_line(rest) is None);
            return Err(InstallerError::NotRoot);
        }
        assert(rest.subrange(e - start + 1, rest.len() as int) =~= v@.subrange(e + 1, n as int));
        start = e + 1;
    }
}

} // verus!
