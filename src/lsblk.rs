//! Block devices as `lsblk --pairs` lists them: one device per line, as
//! `KEY="value"` pairs (e.g. `NAME="sda1" SIZE="512M" TYPE="part"`).
use vstd::prelude::*;
use crate::cmd::{Invocation, InvocationView, Mode, ModeView};
use crate::steps::partition::{device_base, strip_dev};
use crate::text::{
    chars_of, concat2, concat3, find, find_in, is_whitespace, lemma_trim_end, push_all, push_str, slice,
    text_of, trim_bounds, trim_end,
    trimmed, white,
};

verus! {

/// A whole disk.
#[derive(Debug, Clone)]
pub struct Disk {
    /// Device path, e.g. `/dev/sda`.
    pub path: String,
    /// Size as `lsblk` prints it, e.g. `20G`.
    pub size: String,
    /// Model name, e.g. `SAMSUNG SSD 870`.
    pub model: String,
}

/// A partition of a disk.
#[derive(Debug, Clone)]
pub struct Partition {
    /// Device path, e.g. `/dev/sda1`.
    pub path: String,
    /// Size as `lsblk` prints it, e.g. `512M`.
    pub size: String,
    /// Partition type name, e.g. `EFI System`.
    pub part_type: String,
}

/// A disk or partition as three texts: path, size, and model or type.
pub struct DeviceView {
    pub path: Seq<char>,
    pub size: Seq<char>,
    pub detail: Seq<char>,
}

impl View for Disk {
    type V = DeviceView;

    open spec fn view(&self) -> DeviceView {
        DeviceView { path: self.path@, size: self.size@, detail: self.model@ }
    }
}

impl View for Partition {
    type V = DeviceView;

    open spec fn view(&self) -> DeviceView {
        DeviceView { path: self.path@, size: self.size@, detail: self.part_type@ }
    }
}

pub open spec fn spaces(n: nat) -> Seq<char> {
    Seq::new(n, |i: int| ' ')
}

/// `s` followed by spaces up to `w` characters, as the format width `{:<w}`
/// gives it.
pub open spec fn pad_right(s: Seq<char>, w: nat) -> Seq<char> {
    if s.len() >= w {
        s
    } else {
        s + spaces((w - s.len()) as nat)
    }
}

/// `s` after spaces up to `w` characters, as the format width `{:>w}` gives
/// it.
pub open spec fn pad_left(s: Seq<char>, w: nat) -> Seq<char> {
    if s.len() >= w {
        s
    } else {
        spaces((w - s.len()) as nat) + s
    }
}

/// A one-line label: the path in twelve columns, two spaces, the size right
/// aligned in eight columns, three spaces, then the last text.
pub open spec fn label(path: Seq<char>, size: Seq<char>, detail: Seq<char>) -> Seq<char> {
    pad_right(path, 12) + "  "@ + pad_left(size, 8) + "   "@ + detail
}

fn push_spaces(out: &mut Vec<char>, n: usize)
    ensures
        final(out)@ == old(out)@ + spaces(n as nat),
{
    let ghost start = out@;
    let mut i: usize = 0;
    while i < n
        invariant
            i <= n,
            out@ == start + spaces(i as nat),
        decreases n - i,
    {
        out.push(' ');
        i = i + 1;
        assert(out@ =~= start + spaces(i as nat));
    }
}

fn label_of(path: &String, size: &String, detail: &str) -> (r: String)
    ensures
        r@ == label(path@, size@, detail@),
{
    let mut out: Vec<char> = Vec::new();
    let p = chars_of(path.as_str());
    push_all(&mut out, &p);
    if p.len() < 12 {
        push_spaces(&mut out, 12 - p.len());
    }
    push_str(&mut out, "  ");
    let z = chars_of(size.as_str());
    if z.len() < 8 {
        push_spaces(&mut out, 8 - z.len());
    }
    push_all(&mut out, &z);
    push_str(&mut out, "   ");
    push_str(&mut out, detail);
    assert(out@ =~= label(path@, size@, detail@));
    text_of(&out)
}

impl Disk {
    /// One-line label shown in the disk selector.
    pub fn display(&self) -> (r: String)
        ensures
            r@ == label(self.path@, self.size@, self.model@),
    {
        label_of(&self.path, &self.size, self.model.as_str())
    }
}

impl Partition {
    /// One-line label shown in the partition selectors; an empty type shows
    /// as `(no type)`.
    pub fn display(&self) -> (r: String)
        ensures
            r@ == label(
                self.path@,
                self.size@,
                if self.part_type@.len() == 0 {
                    "(no type)"@
                } else {
                    self.part_type@
                },
            ),
    {
        if self.part_type.as_str().is_empty() {
            label_of(&self.path, &self.size, "(no type)")
        } else {
            label_of(&self.path, &self.size, self.part_type.as_str())
        }
    }
}

/// The run of non-whitespace characters at the end of `t`.
pub open spec fn end_run(t: Seq<char>) -> Seq<char>
    decreases t.len(),
{
    if t.len() > 0 && !white(t.last()) {
        end_run(t.drop_last()).push(t.last())
    } else {
        Seq::empty()
    }
}

/// The last whitespace-separated token of `s`, or nothing when it has none.
pub open spec fn last_token(s: Seq<char>) -> Seq<char> {
    end_run(trim_end(s))
}

/// The pairs of `rest`, read left to right: each key is the last token
/// before an `=`, whose value is the quoted text after it; reading stops at
/// an `=` not followed by a quote or at an unclosed quote, and a pair with an
/// empty key is dropped.
pub open spec fn pairs_from(rest: Seq<char>) -> Seq<(Seq<char>, Seq<char>)>
    decreases rest.len(),
{
    let eq = find(rest, '=');
    if eq >= rest.len() {
        Seq::empty()
    } else {
        let after = rest.subrange(eq + 1int, rest.len() as int);
        if after.len() == 0 || after[0] != '"' {
            Seq::empty()
        } else {
            let body = after.drop_first();
            let close = find(body, '"');
            if close >= body.len() {
                Seq::empty()
            } else {
                let key = last_token(rest.subrange(0, eq as int));
                let more = pairs_from(body.subrange(close + 1int, body.len() as int));
                if key.len() == 0 {
                    more
                } else {
                    seq![(key, body.subrange(0, close as int))] + more
                }
            }
        }
    }
}

/// The pairs of one line, which is trimmed first.
pub open spec fn pairs_of_line(line: Seq<char>) -> Seq<(Seq<char>, Seq<char>)> {
    pairs_from(trimmed(line))
}

/// The pairs as character sequences.
pub open spec fn pairs_view(v: Seq<(String, String)>) -> Seq<(Seq<char>, Seq<char>)> {
    v.map_values(|p: (String, String)| (p.0@, p.1@))
}

/// The value of the last pair with key `key`: a later pair overrides an
/// earlier one.
pub open spec fn lookup(pairs: Seq<(Seq<char>, Seq<char>)>, key: Seq<char>) -> Option<Seq<char>>
    decreases pairs.len(),
{
    if pairs.len() == 0 {
        None
    } else if pairs.last().0 == key {
        Some(pairs.last().1)
    } else {
        lookup(pairs.drop_last(), key)
    }
}

proof fn lemma_end_run(t: Seq<char>, a: int)
    requires
        0 <= a <= t.len(),
        forall|j: int| a <= j < t.len() ==> !white(#[trigger] t[j]),
        a == 0 || white(t[a - 1]),
    ensures
        end_run(t) == t.subrange(a, t.len() as int),
    decreases t.len() - a,
{
    if a < t.len() {
        let u = t.drop_last();
        assert forall|j: int| a <= j < u.len() implies !white(#[trigger] u[j]) by {
            assert(u[j] == t[j]);
        }
        if a > 0 {
            assert(u[a - 1] == t[a - 1]);
        }
        lemma_end_run(u, a);
        assert(u.subrange(a, u.len() as int).push(t.last()) =~= t.subrange(a, t.len() as int));
    } else {
        assert(t.subrange(a, t.len() as int) =~= Seq::<char>::empty());
    }
}

/// Bounds of the last whitespace-separated token of `v[lo..hi]`.
fn last_token_bounds(v: &Vec<char>, lo: usize, hi: usize) -> (r: (usize, usize))
    requires
        lo <= hi <= v.len(),
    ensures
        lo <= r.0 <= r.1 <= hi,
        v@.subrange(r.0 as int, r.1 as int) == last_token(v@.subrange(lo as int, hi as int)),
{
    let mut b = hi;
    while b > lo && is_whitespace(v[b - 1])
        invariant
            lo <= b <= hi <= v.len(),
            forall|j: int| b <= j < hi ==> white(#[trigger] v@[j]),
        decreases b - lo,
    {
        b = b - 1;
    }
    let mut a = b;
    while a > lo && !is_whitespace(v[a - 1])
        invariant
            lo <= a <= b <= hi <= v.len(),
            forall|j: int| a <= j < b ==> !white(#[trigger] v@[j]),
        decreases a - lo,
    {
        a = a - 1;
    }
    proof {
        let s = v@.subrange(lo as int, hi as int);
        assert forall|j: int| b - lo <= j < s.len() implies white(#[trigger] s[j]) by {
            assert(s[j] == v@[lo + j]);
        }
        if b > lo {
            assert(s[b - lo - 1] == v@[b - 1]);
        }
        lemma_trim_end(s, b - lo);
        let t = s.subrange(0, b - lo);
        assert forall|j: int| a - lo <= j < t.len() implies !white(#[trigger] t[j]) by {
            assert(t[j] == v@[lo + j]);
        }
        if a > lo {
            assert(t[a - lo - 1] == v@[a - 1]);
        }
        lemma_end_run(t, a - lo);
        assert(t.subrange(a - lo, t.len() as int) =~= v@.subrange(a as int, b as int));
    }
    (a, b)
}

/// The `KEY="value"` pairs of `v[lo..hi]`, in order.
fn pairs_in(v: &Vec<char>, lo: usize, hi: usize) -> (r: Vec<(String, String)>)
    requires
        lo <= hi <= v.len(),
    ensures
        pairs_view(r@) == pairs_of_line(v@.subrange(lo as int, hi as int)),
{
    let (a, b) = trim_bounds(v, lo, hi);
    let ghost whole = v@.subrange(a as int, b as int);
    let mut r: Vec<(String, String)> = Vec::new();
    let mut pos = a;
    let mut done = false;
    while !done
        invariant
            a <= pos <= b <= v.len(),
            whole == v@.subrange(a as int, b as int),
            !done ==> pairs_view(r@) + pairs_from(v@.subrange(pos as int, b as int)) == pairs_from(
                whole,
            ),
            done ==> pairs_view(r@) == pairs_from(whole),
        decreases b - pos + (if done { 0int } else { 1int }),
    {
        let ghost rest = v@.subrange(pos as int, b as int);
        let eq = find_in(v, pos, b, '=');
        if eq == b {
            done = true;
            assert(pairs_view(r@) + Seq::empty() =~= pairs_view(r@));
        } else {
            let ghost after = rest.subrange(eq - pos + 1, rest.len() as int);
            assert(after =~= v@.subrange(eq + 1, b as int));
            if eq + 1 == b || v[eq + 1] != '"' {
                done = true;
                assert(pairs_view(r@) + Seq::empty() =~= pairs_view(r@));
            } else {
                let body = eq + 2;
                let ghost bseq = after.drop_first();
                assert(bseq =~= v@.subrange(body as int, b as int));
                let close = find_in(v, body, b, '"');
                if close == b {
                    done = true;
                    assert(pairs_view(r@) + Seq::empty() =~= pairs_view(r@));
                } else {
                    let (ta, tb) = last_token_bounds(v, pos, eq);
                    assert(rest.subrange(0, eq - pos) =~= v@.subrange(pos as int, eq as int));
                    assert(bseq.subrange(0, close - body) =~= v@.subrange(body as int, close as int));
                    assert(bseq.subrange(close - body + 1, bseq.len() as int) =~= v@.subrange(
                        close + 1,
                        b as int,
                    ));
                    let ghost old_r = pairs_view(r@);
                    if ta < tb {
                        let key = text_of(&slice(v, ta, tb));
                        let value = text_of(&slice(v, body, close));
                        r.push((key, value));
                        assert(pairs_view(r@) =~= old_r + seq![(key@, value@)]);
                    }
                    pos = close + 1;
                    assert(pairs_view(r@) + pairs_from(v@.subrange(pos as int, b as int))
                        =~= old_r + pairs_from(rest));
                }
            }
        }
    }
    r
}

/// The `KEY="value"` pairs of one line of `lsblk --pairs` output, in order;
/// where a key repeats, `lookup` takes the later value.
pub fn parse_pairs(line: &str) -> (r: Vec<(String, String)>)
    ensures
        pairs_view(r@) == pairs_of_line(line@),
{
    let v = chars_of(line);
    assert(v@.subrange(0, v.len() as int) =~= line@);
    pairs_in(&v, 0, v.len())
}

/// The value of the last pair with key `key` among `pairs`.
fn lookup_in(pairs: &Vec<(String, String)>, key: &str) -> (r: Option<String>)
    ensures
        match r {
            Some(x) => lookup(pairs_view(pairs@), key@) == Some(x@),
            None => lookup(pairs_view(pairs@), key@) is None,
        },
{
    let k = String::from_str(key);
    let ghost pv = pairs_view(pairs@);
    let mut i = pairs.len();
    assert(pv.take(i as int) =~= pv);
    while i > 0
        invariant
            i <= pairs@.len(),
            pv == pairs_view(pairs@),
            k@ == key@,
            lookup(pv.take(i as int), key@) == lookup(pv, key@),
        decreases i,
    {
        assert(pv.take(i as int).last() == pv[i - 1]);
        if pairs[i - 1].0 == k {
            return Some(pairs[i - 1].1.clone());
        }
        assert(pv.take(i as int).drop_last() =~= pv.take(i - 1));
        i = i - 1;
    }
    None
}

/// The text of an optional value, empty when absent.
pub open spec fn or_empty(o: Option<Seq<char>>) -> Seq<char> {
    match o {
        Some(x) => x,
        None => Seq::empty(),
    }
}

fn or_empty_text(o: Option<String>) -> (r: String)
    ensures
        r@ == or_empty(
            match o {
                Some(x) => Some(x@),
                None => None,
            },
        ),
{
    match o {
        Some(x) => x,
        None => String::new(),
    }
}

/// The disk that one line describes, if its type is `disk`: path `/dev/` and
/// the name, the size, and the model or `—` when that is empty.
pub open spec fn disk_of(pairs: Seq<(Seq<char>, Seq<char>)>) -> Option<DeviceView> {
    if lookup(pairs, "TYPE"@) == Some("disk"@) {
        let model = or_empty(lookup(pairs, "MODEL"@));
        Some(
            DeviceView {
                path: "/dev/"@ + or_empty(lookup(pairs, "NAME"@)),
                size: or_empty(lookup(pairs, "SIZE"@)),
                detail: if model.len() == 0 {
                    "—"@
                } else {
                    model
                },
            },
        )
    } else {
        None
    }
}

/// The partition that one line describes, if its type is `part`: path
/// `/dev/` and the name, the size, and the partition type name.
pub open spec fn partition_of(pairs: Seq<(Seq<char>, Seq<char>)>) -> Option<DeviceView> {
    if lookup(pairs, "TYPE"@) == Some("part"@) {
        Some(
            DeviceView {
                path: "/dev/"@ + or_empty(lookup(pairs, "NAME"@)),
                size: or_empty(lookup(pairs, "SIZE"@)),
                detail: or_empty(lookup(pairs, "PARTTYPENAME"@)),
            },
        )
    } else {
        None
    }
}

fn is_type(pairs: &Vec<(String, String)>, ty: &str) -> (r: bool)
    ensures
        r == (lookup(pairs_view(pairs@), "TYPE"@) == Some(ty@)),
{
    match lookup_in(pairs, "TYPE") {
        Some(t) => {
            let w = String::from_str(ty);
            t == w
        },
        None => false,
    }
}

fn device_path(pairs: &Vec<(String, String)>) -> (r: String)
    ensures
        r@ == "/dev/"@ + or_empty(lookup(pairs_view(pairs@), "NAME"@)),
{
    let name = or_empty_text(lookup_in(pairs, "NAME"));
    concat2("/dev/", name.as_str())
}

fn disk_in_line(v: &Vec<char>, lo: usize, hi: usize) -> (r: Option<Disk>)
    requires
        lo <= hi <= v.len(),
    ensures
        match r {
            Some(d) => disk_of(pairs_of_line(v@.subrange(lo as int, hi as int))) == Some(d@),
            None => disk_of(pairs_of_line(v@.subrange(lo as int, hi as int))) is None,
        },
{
    let pairs = pairs_in(v, lo, hi);
    if !is_type(&pairs, "disk") {
        return None;
    }
    let model = or_empty_text(lookup_in(&pairs, "MODEL"));
    Some(
        Disk {
            path: device_path(&pairs),
            size: or_empty_text(lookup_in(&pairs, "SIZE")),
            model: if model.as_str().is_empty() {
                String::from_str("—")
            } else {
                model
            },
        },
    )
}

fn partition_in_line(v: &Vec<char>, lo: usize, hi: usize) -> (r: Option<Partition>)
    requires
        lo <= hi <= v.len(),
    ensures
        match r {
            Some(p) => partition_of(pairs_of_line(v@.subrange(lo as int, hi as int))) == Some(p@),
            None => partition_of(pairs_of_line(v@.subrange(lo as int, hi as int))) is None,
        },
{
    let pairs = pairs_in(v, lo, hi);
    if !is_type(&pairs, "part") {
        return None;
    }
    Some(
        Partition {
            path: device_path(&pairs),
            size: or_empty_text(lookup_in(&pairs, "SIZE")),
            part_type: or_empty_text(lookup_in(&pairs, "PARTTYPENAME")),
        },
    )
}

/// The disks that the lines of `text` describe, in order.
pub open spec fn disks_from(text: Seq<char>) -> Seq<DeviceView>
    decreases text.len(),
{
    let e = find(text, '\n');
    let here = match disk_of(pairs_of_line(text.subrange(0, e as int))) {
        Some(d) => seq![d],
        None => Seq::empty(),
    };
    if e < text.len() {
        here + disks_from(text.subrange(e + 1int, text.len() as int))
    } else {
        here
    }
}

/// The partitions that the lines of `text` describe, in order.
pub open spec fn partitions_from(text: Seq<char>) -> Seq<DeviceView>
    decreases text.len(),
{
    let e = find(text, '\n');
    let here = match partition_of(pairs_of_line(text.subrange(0, e as int))) {
        Some(d) => seq![d],
        None => Seq::empty(),
    };
    if e < text.len() {
        here + partitions_from(text.subrange(e + 1int, text.len() as int))
    } else {
        here
    }
}

pub open spec fn disks_view(v: Seq<Disk>) -> Seq<DeviceView> {
    v.map_values(|d: Disk| d@)
}

pub open spec fn partitions_view(v: Seq<Partition>) -> Seq<DeviceView> {
    v.map_values(|p: Partition| p@)
}

/// The disks that `lsblk` output describes.
pub fn disks_in(text: &str) -> (r: Vec<Disk>)
    ensures
        disks_view(r@) == disks_from(text@),
{
    let v = chars_of(text);
    let n = v.len();
    let mut r: Vec<Disk> = Vec::new();
    let mut start: usize = 0;
    let mut done = false;
    assert(v@.subrange(0, n as int) =~= v@);
    while !done
        invariant
            n == v.len(),
            v@ == text@,
            start <= n,
            !done ==> disks_view(r@) + disks_from(v@.subrange(start as int, n as int))
                == disks_from(text@),
            done ==> disks_view(r@) == disks_from(text@),
        decreases n - start + (if done { 0int } else { 1int }),
    {
        let ghost rest = v@.subrange(start as int, n as int);
        let ghost before = disks_view(r@);
        let e = find_in(&v, start, n, '\n');
        assert(rest.subrange(0, e - start) =~= v@.subrange(start as int, e as int));
        if let Some(d) = disk_in_line(&v, start, e) {
            r.push(d);
            assert(disks_view(r@) =~= before + seq![d@]);
        } else {
            assert(disks_view(r@) =~= before);
        }
        if e < n {
            assert(rest.subrange(e - start + 1, rest.len() as int) =~= v@.subrange(
                e + 1,
                n as int,
            ));
            start = e + 1;
            assert(disks_view(r@) + disks_from(v@.subrange(start as int, n as int)) =~= before
                + disks_from(rest));
        } else {
            done = true;
            assert(disks_view(r@) =~= before + disks_from(rest));
        }
    }
    r
}

/// The partitions that `lsblk` output describes.
pub fn partitions_in(text: &str) -> (r: Vec<Partition>)
    ensures
        partitions_view(r@) == partitions_from(text@),
{
    let v = chars_of(text);
    let n = v.len();
    let mut r: Vec<Partition> = Vec::new();
    let mut start: usize = 0;
    let mut done = false;
    assert(v@.subrange(0, n as int) =~= v@);
    while !done
        invariant
            n == v.len(),
            v@ == text@,
            start <= n,
            !done ==> partitions_view(r@) + partitions_from(v@.subrange(start as int, n as int))
                == partitions_from(text@),
            done ==> partitions_view(r@) == partitions_from(text@),
        decreases n - start + (if done { 0int } else { 1int }),
    {
        let ghost rest = v@.subrange(start as int, n as int);
        let ghost before = partitions_view(r@);
        let e = find_in(&v, start, n, '\n');
        assert(rest.subrange(0, e - start) =~= v@.subrange(start as int, e as int));
        if let Some(d) = partition_in_line(&v, start, e) {
            r.push(d);
            assert(partitions_view(r@) =~= before + seq![d@]);
        } else {
            assert(partitions_view(r@) =~= before);
        }
        if e < n {
            assert(rest.subrange(e - start + 1, rest.len() as int) =~= v@.subrange(
                e + 1,
                n as int,
            ));
            start = e + 1;
            assert(partitions_view(r@) + partitions_from(v@.subrange(start as int, n as int))
                =~= before + partitions_from(rest));
        } else {
            done = true;
            assert(partitions_view(r@) =~= before + partitions_from(rest));
        }
    }
    r
}

/// The disks shown in a dry run.
pub open spec fn mock_disks_spec() -> Seq<DeviceView> {
    seq![
        DeviceView { path: "/dev/sda"@, size: "20G"@, detail: "QEMU HARDDISK"@ },
        DeviceView { path: "/dev/sdb"@, size: "8G"@, detail: "USB Flash Drive"@ },
    ]
}

/// The partitions shown in a dry run for a disk whose name, without
/// `/dev/`, is `base`.
pub open spec fn mock_partitions_spec(base: Seq<char>) -> Seq<DeviceView> {
    seq![
        DeviceView { path: "/dev/"@ + base + "1"@, size: "512M"@, detail: "EFI System"@ },
        DeviceView { path: "/dev/"@ + base + "2"@, size: "2G"@, detail: "Linux swap"@ },
        DeviceView { path: "/dev/"@ + base + "3"@, size: "17.5G"@, detail: "Linux filesystem"@ },
    ]
}

fn disk(path: &str, size: &str, model: &str) -> (r: Disk)
    ensures
        r@ == (DeviceView { path: path@, size: size@, detail: model@ }),
{
    Disk { path: String::from_str(path), size: String::from_str(size), model: String::from_str(model) }
}

fn partition(path: String, size: &str, part_type: &str) -> (r: Partition)
    ensures
        r@ == (DeviceView { path: path@, size: size@, detail: part_type@ }),
{
    Partition { path, size: String::from_str(size), part_type: String::from_str(part_type) }
}

/// The disks shown in a dry run.
pub fn mock_disks() -> (r: Vec<Disk>)
    ensures
        disks_view(r@) == mock_disks_spec(),
{
    let r = vec![disk("/dev/sda", "20G", "QEMU HARDDISK"), disk("/dev/sdb", "8G", "USB Flash Drive")];
    assert(disks_view(r@) =~= mock_disks_spec());
    r
}

/// The partitions shown in a dry run for `disk`.
pub fn mock_partitions(disk: &str) -> (r: Vec<Partition>)
    ensures
        partitions_view(r@) == mock_partitions_spec(strip_dev(disk@)),
{
    let base = device_base(disk);
    let b = base.as_str();
    let r = vec![
        partition(concat3("/dev/", b, "1"), "512M", "EFI System"),
        partition(concat3("/dev/", b, "2"), "2G", "Linux swap"),
        partition(concat3("/dev/", b, "3"), "17.5G", "Linux filesystem"),
    ];
    assert(partitions_view(r@) =~= mock_partitions_spec(strip_dev(disk@)));
    r
}

/// The command that lists the disks.
pub fn disks_query() -> (r: Invocation)
    ensures
        r@ == (InvocationView {
            program: "lsblk"@,
            args: seq!["--pairs"@, "--output"@, "NAME,SIZE,TYPE,MODEL"@, "--nodeps"@],
            mode: ModeView::Capture,
        }),
{
    let args = ["--pairs", "--output", "NAME,SIZE,TYPE,MODEL", "--nodeps"];
    let r = Invocation::new("lsblk", &args, Mode::Capture);
    assert(r@.args =~= seq!["--pairs"@, "--output"@, "NAME,SIZE,TYPE,MODEL"@, "--nodeps"@]);
    r
}

/// The command that lists the partitions of `disk`.
pub fn partitions_query(disk: &str) -> (r: Invocation)
    ensures
        r@ == (InvocationView {
            program: "lsblk"@,
            args: seq!["--pairs"@, "--output"@, "NAME,SIZE,TYPE,PARTTYPENAME"@, disk@],
            mode: ModeView::Capture,
        }),
{
    let args = ["--pairs", "--output", "NAME,SIZE,TYPE,PARTTYPENAME", disk];
    let r = Invocation::new("lsblk", &args, Mode::Capture);
    assert(r@.args =~= seq!["--pairs"@, "--output"@, "NAME,SIZE,TYPE,PARTTYPENAME"@, disk@]);
    r
}

/// The disks to offer: in a dry run the mock disks; otherwise those that the
/// output of `disks_query` describes, or none when it could not be had.
pub fn list_disks(dry_run: bool, output: Option<&str>) -> (r: Vec<Disk>)
    ensures
        disks_view(r@) == if dry_run {
            mock_disks_spec()
        } else {
            match output {
                Some(t) => disks_from(t@),
                None => Seq::empty(),
            }
        },
{
    if dry_run {
        return mock_disks();
    }
    match output {
        Some(t) => disks_in(t),
        None => {
            let r: Vec<Disk> = Vec::new();
            assert(disks_view(r@) =~= Seq::empty());
            r
        },
    }
}

/// The partitions of `disk` to offer: in a dry run the mock partitions;
/// otherwise those that the output of `partitions_query` describes, or none
/// when it could not be had.
pub fn list_partitions(disk: &str, dry_run: bool, output: Option<&str>) -> (r: Vec<Partition>)
    ensures
        partitions_view(r@) == if dry_run {
            mock_partitions_spec(strip_dev(disk@))
        } else {
            match output {
                Some(t) => partitions_from(t@),
                None => Seq::empty(),
            }
        },
{
    if dry_run {
        return mock_partitions(disk);
    }
    match output {
        Some(t) => partitions_in(t),
        None => {
            let r: Vec<Partition> = Vec::new();
            assert(partitions_view(r@) =~= Seq::empty());
            r
        },
    }
}

} // verus!
