//! The checkpoint record: progress of the installation and the facts that
//! completed steps produced, stored as `key=value` lines.
use vstd::prelude::*;
use crate::config::{Config, KernelVariant, kernel_of_token, kernel_token, lemma_kernel_token};
use crate::text::{
    chars_of, decimal, find, find_in, is_digit, is_trimmed, lemma_decimal, lemma_find,
    lemma_parse_decimal, parse_byte, parse_u8, push_decimal, push_str, slice, spells, text_of,
    trim_bounds, trim_end, trim_start, trimmed,
};

verus! {

/// Persisted checkpoint data, written after each completed step.
#[derive(Debug, Default)]
pub struct Session {
    /// Index of the last fully completed step (0 = nothing done yet).
    pub last_step: u8,
    pub disk: Option<String>,
    pub efi_partition: Option<String>,
    pub swap_partition: Option<String>,
    pub root_partition: Option<String>,
    pub kernel: Option<KernelVariant>,
}

/// A checkpoint record with its texts as character sequences.
pub struct SessionView {
    pub last_step: u8,
    pub disk: Option<Seq<char>>,
    pub efi: Option<Seq<char>>,
    pub swap: Option<Seq<char>>,
    pub root: Option<Seq<char>>,
    pub kernel: Option<KernelVariant>,
}

/// The characters of an optional text.
pub open spec fn opt_view(o: Option<String>) -> Option<Seq<char>> {
    match o {
        Some(s) => Some(s@),
        None => None,
    }
}

impl View for Session {
    type V = SessionView;

    open spec fn view(&self) -> SessionView {
        SessionView {
            last_step: self.last_step,
            disk: opt_view(self.disk),
            efi: opt_view(self.efi_partition),
            swap: opt_view(self.swap_partition),
            root: opt_view(self.root_partition),
            kernel: self.kernel,
        }
    }
}

/// The record of a fresh installation: nothing done, no facts.
pub open spec fn empty_record() -> SessionView {
    SessionView { last_step: 0, disk: None, efi: None, swap: None, root: None, kernel: None }
}

/// The record after reading the fact `key` with value `val`; unknown keys
/// change nothing, and a progress counter that does not read as a byte is 0.
#[verifier::opaque]
pub open spec fn apply_fact(s: SessionView, key: Seq<char>, val: Seq<char>) -> SessionView {
    if key == "step"@ {
        SessionView {
            last_step: match parse_u8(val) {
                Some(n) => n,
                None => 0,
            },
            ..s
        }
    } else if key == "disk"@ {
        SessionView { disk: Some(val), ..s }
    } else if key == "efi"@ {
        SessionView { efi: Some(val), ..s }
    } else if key == "swap"@ {
        SessionView { swap: Some(val), ..s }
    } else if key == "root"@ {
        SessionView { root: Some(val), ..s }
    } else if key == "kernel"@ {
        SessionView { kernel: Some(kernel_of_token(val)), ..s }
    } else {
        s
    }
}

/// The record after reading one line: key and value are the trimmed texts
/// before and after its first `=`; a line without `=` changes nothing.
#[verifier::opaque]
pub open spec fn apply_line(s: SessionView, line: Seq<char>) -> SessionView {
    let eq = find(line, '=');
    if eq < line.len() {
        apply_fact(
            s,
            trimmed(line.subrange(0, eq as int)),
            trimmed(line.subrange(eq + 1int, line.len() as int)),
        )
    } else {
        s
    }
}

/// The record after reading every line of `text` in order.
#[verifier::opaque]
pub open spec fn apply_lines(s: SessionView, text: Seq<char>) -> SessionView
    decreases text.len(),
{
    let e = find(text, '\n');
    if e < text.len() {
        apply_lines(
            apply_line(s, text.subrange(0, e as int)),
            text.subrange(e + 1int, text.len() as int),
        )
    } else {
        apply_line(s, text)
    }
}

/// What a stored record reads as: nothing when its progress counter is 0.
pub open spec fn parse_record(text: Seq<char>) -> Option<SessionView> {
    let s = apply_lines(empty_record(), text);
    if s.last_step == 0 {
        None
    } else {
        Some(s)
    }
}

/// The line for an optional fact, or nothing.
pub open spec fn fact_line(head: Seq<char>, v: Option<Seq<char>>) -> Seq<char> {
    match v {
        Some(x) => head + x + "\n"@,
        None => Seq::empty(),
    }
}

/// The stored text of a record: the progress counter first, then each
/// present fact, one `key=value` line each.
pub open spec fn render(s: SessionView) -> Seq<char> {
    "step="@ + decimal(s.last_step as nat) + "\n"@
        + fact_line("disk="@, s.disk)
        + fact_line("efi="@, s.efi)
        + fact_line("swap="@, s.swap)
        + fact_line("root="@, s.root)
        + match s.kernel {
            Some(k) => "kernel="@ + kernel_token(k) + "\n"@,
            None => Seq::empty(),
        }
}

/// Whether a fact value survives a save: no line break, and no whitespace at
/// either end (reading trims it).
pub open spec fn storable(x: Seq<char>) -> bool {
    &&& forall|j: int| 0 <= j < x.len() ==> #[trigger] x[j] != '\n'
    &&& is_trimmed(x)
}

pub open spec fn storable_opt(o: Option<Seq<char>>) -> bool {
    match o {
        Some(x) => storable(x),
        None => true,
    }
}

proof fn lemma_trimmed_id(x: Seq<char>)
    requires
        is_trimmed(x),
    ensures
        trimmed(x) == x,
{
    assert(trim_start(x) == x);
    assert(trim_end(x) == x);
}

proof fn lemma_keys_distinct()
    ensures
        "step"@ != "disk"@,
        "step"@ != "efi"@,
        "step"@ != "swap"@,
        "step"@ != "root"@,
        "step"@ != "kernel"@,
        "disk"@ != "efi"@,
        "disk"@ != "swap"@,
        "disk"@ != "root"@,
        "disk"@ != "kernel"@,
        "efi"@ != "swap"@,
        "efi"@ != "root"@,
        "efi"@ != "kernel"@,
        "swap"@ != "root"@,
        "swap"@ != "kernel"@,
        "root"@ != "kernel"@,
{
    reveal_strlit("step");
    reveal_strlit("disk");
    reveal_strlit("efi");
    reveal_strlit("swap");
    reveal_strlit("root");
    reveal_strlit("kernel");
    assert("step"@[0] != "disk"@[0]);
    assert("step"@.len() != "efi"@.len());
    assert("step"@[1] != "swap"@[1]);
    assert("step"@[0] != "root"@[0]);
    assert("step"@.len() != "kernel"@.len());
    assert("disk"@.len() != "efi"@.len());
    assert("disk"@[0] != "swap"@[0]);
    assert("disk"@[0] != "root"@[0]);
    assert("disk"@.len() != "kernel"@.len());
    assert("efi"@.len() != "swap"@.len());
    assert("efi"@.len() != "root"@.len());
    assert("efi"@.len() != "kernel"@.len());
    assert("swap"@[0] != "root"@[0]);
    assert("swap"@.len() != "kernel"@.len());
    assert("root"@.len() != "kernel"@.len());
}

/// Reading `line`, a line break, then `rest` is reading `line`, then `rest`.
proof fn lemma_lines_split(s: SessionView, line: Seq<char>, rest: Seq<char>)
    requires
        forall|j: int| 0 <= j < line.len() ==> #[trigger] line[j] != '\n',
    ensures
        apply_lines(s, line + "\n"@ + rest) == apply_lines(apply_line(s, line), rest),
{
    reveal(apply_lines);
    reveal_strlit("\n");
    let t = line + "\n"@ + rest;
    assert forall|j: int| 0 <= j < line.len() implies #[trigger] t[j] != '\n' by {
        assert(t[j] == line[j]);
    }
    lemma_find(t, '\n', line.len() as int);
    assert(t.subrange(0, line.len() as int) =~= line);
    assert(t.subrange(line.len() + 1int, t.len() as int) =~= rest);
}

/// Reading the line `head` + `x`, where `head` is a key and `=`.
proof fn lemma_fact_line(s: SessionView, key: Seq<char>, head: Seq<char>, x: Seq<char>)
    requires
        head == key + seq!['='],
        forall|j: int| 0 <= j < key.len() ==> #[trigger] key[j] != '=' && key[j] != '\n',
        is_trimmed(key),
        storable(x),
    ensures
        apply_line(s, head + x) == apply_fact(s, key, x),
        forall|j: int| 0 <= j < (head + x).len() ==> #[trigger] (head + x)[j] != '\n',
{
    reveal(apply_line);
    let line = head + x;
    assert forall|j: int| 0 <= j < key.len() implies #[trigger] line[j] != '=' by {
        assert(line[j] == key[j]);
    }
    lemma_find(line, '=', key.len() as int);
    assert(line.subrange(0, key.len() as int) =~= key);
    assert(line.subrange(key.len() + 1int, line.len() as int) =~= x);
    lemma_trimmed_id(key);
    lemma_trimmed_id(x);
    assert forall|j: int| 0 <= j < line.len() implies #[trigger] line[j] != '\n' by {
        if j < head.len() {
            assert(line[j] == head[j]);
            if j < key.len() {
                assert(head[j] == key[j]);
            }
        } else {
            assert(line[j] == x[j - head.len()]);
        }
    }
}

/// A key that reads back from its line: no `=`, no line break, no
/// whitespace at either end, and `head` is the key followed by `=`.
spec fn plain_key(key: Seq<char>, head: Seq<char>) -> bool {
    &&& head == key + seq!['=']
    &&& forall|j: int| 0 <= j < key.len() ==> #[trigger] key[j] != '=' && key[j] != '\n'
    &&& is_trimmed(key)
}

proof fn lemma_plain_keys()
    ensures
        plain_key("step"@, "step="@),
        plain_key("disk"@, "disk="@),
        plain_key("efi"@, "efi="@),
        plain_key("swap"@, "swap="@),
        plain_key("root"@, "root="@),
        plain_key("kernel"@, "kernel="@),
{
    reveal_strlit("step=");
    reveal_strlit("step");
    reveal_strlit("disk=");
    reveal_strlit("disk");
    reveal_strlit("efi=");
    reveal_strlit("efi");
    reveal_strlit("swap=");
    reveal_strlit("swap");
    reveal_strlit("root=");
    reveal_strlit("root");
    reveal_strlit("kernel=");
    reveal_strlit("kernel");
    assert("step="@ =~= "step"@ + seq!['=']);
    assert("disk="@ =~= "disk"@ + seq!['=']);
    assert("efi="@ =~= "efi"@ + seq!['=']);
    assert("swap="@ =~= "swap"@ + seq!['=']);
    assert("root="@ =~= "root"@ + seq!['=']);
    assert("kernel="@ =~= "kernel"@ + seq!['=']);
}

/// What reading each known fact does to a record.
proof fn lemma_apply_known(r: SessionView, x: Seq<char>)
    ensures
        apply_fact(r, "step"@, x) == (SessionView {
            last_step: match parse_u8(x) {
                Some(n) => n,
                None => 0,
            },
            ..r
        }),
        apply_fact(r, "disk"@, x) == (SessionView { disk: Some(x), ..r }),
        apply_fact(r, "efi"@, x) == (SessionView { efi: Some(x), ..r }),
        apply_fact(r, "swap"@, x) == (SessionView { swap: Some(x), ..r }),
        apply_fact(r, "root"@, x) == (SessionView { root: Some(x), ..r }),
        apply_fact(r, "kernel"@, x) == (SessionView { kernel: Some(kernel_of_token(x)), ..r }),
{
    reveal(apply_fact);
    lemma_keys_distinct();
}

/// Reading an optional fact line, then `rest`.
proof fn lemma_opt_line(
    r: SessionView,
    key: Seq<char>,
    head: Seq<char>,
    o: Option<Seq<char>>,
    rest: Seq<char>,
)
    requires
        plain_key(key, head),
        storable_opt(o),
    ensures
        apply_lines(r, fact_line(head, o) + rest) == match o {
            Some(x) => apply_lines(apply_fact(r, key, x), rest),
            None => apply_lines(r, rest),
        },
{
    reveal_strlit("\n");
    match o {
        Some(x) => {
            lemma_fact_line(r, key, head, x);
            lemma_lines_split(r, head + x, rest);
            assert(fact_line(head, o) + rest =~= (head + x) + "\n"@ + rest);
        },
        None => {
            assert(fact_line(head, o) + rest =~= rest);
        },
    }
}

proof fn lemma_no_lines(r: SessionView)
    ensures
        apply_lines(r, Seq::empty()) == r,
{
    reveal(apply_lines);
    reveal(apply_line);
}

spec fn kernel_fact(k: Option<KernelVariant>) -> Option<Seq<char>> {
    match k {
        Some(k) => Some(kernel_token(k)),
        None => None,
    }
}

proof fn lemma_render_lines(s: SessionView)
    ensures
        render(s) == fact_line("step="@, Some(decimal(s.last_step as nat))) + (fact_line(
            "disk="@,
            s.disk,
        ) + (fact_line("efi="@, s.efi) + (fact_line("swap="@, s.swap) + (fact_line(
            "root="@,
            s.root,
        ) + fact_line("kernel="@, kernel_fact(s.kernel)))))),
{
    assert(render(s) =~= fact_line("step="@, Some(decimal(s.last_step as nat))) + (fact_line(
        "disk="@,
        s.disk,
    ) + (fact_line("efi="@, s.efi) + (fact_line("swap="@, s.swap) + (fact_line(
        "root="@,
        s.root,
    ) + fact_line("kernel="@, kernel_fact(s.kernel)))))));
}

proof fn lemma_step_value(k: u8)
    ensures
        storable(decimal(k as nat)),
        parse_u8(decimal(k as nat)) == Some(k),
{
    let d = decimal(k as nat);
    lemma_decimal(k as nat);
    lemma_parse_decimal(k);
    assert(is_digit(d[0]) && is_digit(d.last()));
    assert forall|j: int| 0 <= j < d.len() implies #[trigger] d[j] != '\n' by {
        assert(is_digit(d[j]));
    }
}

proof fn lemma_kernel_value(k: KernelVariant)
    ensures
        storable(kernel_token(k)),
        kernel_of_token(kernel_token(k)) == k,
{
    lemma_kernel_token(k);
    reveal_strlit("stable");
    reveal_strlit("lts");
    reveal_strlit("zen");
}

/// Checkpoint round trip: a record with progress at least 1 whose fact values
/// are storable reads back, after saving, as the same record.
pub proof fn lemma_round_trip(s: SessionView)
    requires
        s.last_step >= 1,
        storable_opt(s.disk),
        storable_opt(s.efi),
        storable_opt(s.swap),
        storable_opt(s.root),
    ensures
        parse_record(render(s)) == Some(s),
{
    lemma_plain_keys();
    lemma_render_lines(s);
    let d = decimal(s.last_step as nat);
    lemma_step_value(s.last_step);
    let ko = kernel_fact(s.kernel);
    if let Some(k) = s.kernel {
        lemma_kernel_value(k);
    }
    let tail4 = fact_line("kernel="@, ko);
    let tail3 = fact_line("root="@, s.root) + tail4;
    let tail2 = fact_line("swap="@, s.swap) + tail3;
    let tail1 = fact_line("efi="@, s.efi) + tail2;
    let tail0 = fact_line("disk="@, s.disk) + tail1;

    let r0 = empty_record();
    lemma_opt_line(r0, "step"@, "step="@, Some(d), tail0);
    let r1 = apply_fact(r0, "step"@, d);
    lemma_apply_known(r0, d);
    lemma_opt_line(r1, "disk"@, "disk="@, s.disk, tail1);
    let r2 = match s.disk {
        Some(x) => apply_fact(r1, "disk"@, x),
        None => r1,
    };
    if let Some(x) = s.disk {
        lemma_apply_known(r1, x);
    }
    lemma_opt_line(r2, "efi"@, "efi="@, s.efi, tail2);
    let r3 = match s.efi {
        Some(x) => apply_fact(r2, "efi"@, x),
        None => r2,
    };
    if let Some(x) = s.efi {
        lemma_apply_known(r2, x);
    }
    lemma_opt_line(r3, "swap"@, "swap="@, s.swap, tail3);
    let r4 = match s.swap {
        Some(x) => apply_fact(r3, "swap"@, x),
        None => r3,
    };
    if let Some(x) = s.swap {
        lemma_apply_known(r3, x);
    }
    lemma_opt_line(r4, "root"@, "root="@, s.root, tail4);
    let r5 = match s.root {
        Some(x) => apply_fact(r4, "root"@, x),
        None => r4,
    };
    if let Some(x) = s.root {
        lemma_apply_known(r4, x);
    }
    lemma_opt_line(r5, "kernel"@, "kernel="@, ko, Seq::empty());
    assert(tail4 + Seq::<char>::empty() =~= tail4);
    let r6 = match ko {
        Some(x) => apply_fact(r5, "kernel"@, x),
        None => r5,
    };
    if let Some(x) = ko {
        lemma_apply_known(r5, x);
    }
    lemma_no_lines(r6);
    assert(r6 == s);
}

impl Session {
    /// A record with nothing done.
    pub fn empty() -> (r: Session)
        ensures
            r@ == empty_record(),
    {
        Session {
            last_step: 0,
            disk: None,
            efi_partition: None,
            swap_partition: None,
            root_partition: None,
            kernel: None,
        }
    }

    fn apply_line(&mut self, v: &Vec<char>, lo: usize, hi: usize)
        requires
            lo <= hi <= v.len(),
        ensures
            final(self)@ == apply_line(old(self)@, v@.subrange(lo as int, hi as int)),
    {
        let ghost line = v@.subrange(lo as int, hi as int);
        proof {
            reveal(apply_line);
            reveal(apply_fact);
        }
        let eq = find_in(v, lo, hi, '=');
        if eq == hi {
            return;
        }
        let (ka, kb) = trim_bounds(v, lo, eq);
        let (va, vb) = trim_bounds(v, eq + 1, hi);
        proof {
            assert(line.subrange(0, eq - lo) =~= v@.subrange(lo as int, eq as int));
            assert(line.subrange(eq - lo + 1, line.len() as int) =~= v@.subrange(
                eq + 1,
                hi as int,
            ));
        }
        if spells(v, ka, kb, "step") {
            self.last_step = match parse_byte(v, va, vb) {
                Some(n) => n,
                None => 0,
            };
        } else if spells(v, ka, kb, "disk") {
            self.disk = Some(text_of(&slice(v, va, vb)));
        } else if spells(v, ka, kb, "efi") {
            self.efi_partition = Some(text_of(&slice(v, va, vb)));
        } else if spells(v, ka, kb, "swap") {
            self.swap_partition = Some(text_of(&slice(v, va, vb)));
        } else if spells(v, ka, kb, "root") {
            self.root_partition = Some(text_of(&slice(v, va, vb)));
        } else if spells(v, ka, kb, "kernel") {
            self.kernel = Some(KernelVariant::from_chars(v, va, vb));
        }
    }

    /// Reads a stored record; `None` when nothing is stored or when the
    /// stored progress counter is 0.
    pub fn load(stored: Option<&str>) -> (r: Option<Session>)
        ensures
            match stored {
                None => r is None,
                Some(t) => match parse_record(t@) {
                    None => r is None,
                    Some(m) => r matches Some(s) && s@ == m,
                },
            },
    {
        let t = match stored {
            None => return None,
            Some(t) => t,
        };
        let v = chars_of(t);
        let n = v.len();
        let mut s = Session::empty();
        let mut start: usize = 0;
        let mut done = false;
        assert(v@.subrange(0, n as int) =~= v@);
        while !done
            invariant
                n == v.len(),
                v@ == t@,
                start <= n,
                !done ==> apply_lines(s@, v@.subrange(start as int, n as int)) == apply_lines(
                    empty_record(),
                    t@,
                ),
                done ==> s@ == apply_lines(empty_record(), t@),
            decreases n - start + (if done { 0int } else { 1int }),
        {
            let ghost rest = v@.subrange(start as int, n as int);
            proof {
                reveal(apply_lines);
            }
            let e = find_in(&v, start, n, '\n');
            if e < n {
                proof {
                    assert(rest.subrange(0, e - start) =~= v@.subrange(start as int, e as int));
                    assert(rest.subrange(e - start + 1, rest.len() as int) =~= v@.subrange(
                        e + 1,
                        n as int,
                    ));
                }
                s.apply_line(&v, start, e);
                start = e + 1;
            } else {
                s.apply_line(&v, start, n);
                done = true;
            }
        }
        if s.last_step == 0 {
            None
        } else {
            Some(s)
        }
    }

    /// The text that saving this record stores.
    pub fn save(&self) -> (r: String)
        ensures
            r@ == render(self@),
    {
        let mut out: Vec<char> = Vec::new();
        push_str(&mut out, "step=");
        push_decimal(&mut out, self.last_step as u64);
        push_str(&mut out, "\n");
        Self::push_fact(&mut out, "disk=", &self.disk);
        Self::push_fact(&mut out, "efi=", &self.efi_partition);
        Self::push_fact(&mut out, "swap=", &self.swap_partition);
        Self::push_fact(&mut out, "root=", &self.root_partition);
        let ghost before = out@;
        if let Some(k) = self.kernel {
            push_str(&mut out, "kernel=");
            push_str(&mut out, k.as_str());
            push_str(&mut out, "\n");
        }
        assert(out@ =~= render(self@));
        text_of(&out)
    }

    fn push_fact(out: &mut Vec<char>, head: &str, v: &Option<String>)
        ensures
            final(out)@ == old(out)@ + fact_line(head@, opt_view(*v)),
    {
        match v {
            Some(x) => {
                push_str(out, head);
                push_str(out, x.as_str());
                push_str(out, "\n");
                assert(out@ =~= old(out)@ + fact_line(head@, opt_view(*v)));
            },
            None => {
                assert(out@ =~= old(out)@ + fact_line(head@, opt_view(*v)));
            },
        }
    }

    /// The partition layout recorded in this checkpoint; a missing EFI or root
    /// partition reads as an empty path.
    pub fn to_config(&self) -> (r: Config)
        ensures
            r.efi_partition@ == match self.efi_partition {
                Some(e) => e@,
                None => Seq::empty(),
            },
            r.swap_partition == self.swap_partition,
            r.root_partition@ == match self.root_partition {
                Some(e) => e@,
                None => Seq::empty(),
            },
    {
        Config {
            efi_partition: match &self.efi_partition {
                Some(e) => e.clone(),
                None => String::new(),
            },
            swap_partition: match &self.swap_partition {
                Some(e) => Some(e.clone()),
                None => None,
            },
            root_partition: match &self.root_partition {
                Some(e) => e.clone(),
                None => String::new(),
            },
        }
    }
}

} // verus!
