//! Per-process facts: which app bundle a process belongs to, and the two
//! rankings `top` and `pressure` report.
use crate::text;
use std::collections::HashMap;
use vstd::prelude::*;

verus! {

/// A finished per-process row. The CPU percentage is carried as its IEEE 754
/// single-precision bit pattern (`f32::to_bits`), which is what its ordering
/// (`f32::total_cmp`) is defined on.
#[derive(Debug, Clone)]
pub struct ProcSample {
    pub pid: u32,
    pub name: String,
    pub app: Option<String>,
    /// Per-process CPU percent, `f32::to_bits`. Exceeds 100 on multi-core work.
    pub cpu_pct_bits: u32,
    pub mem_mb: u64,
    pub threads: u32,
}

/// The bundle display name an executable path lies in: the outermost
/// `<name>.app/`, provided the path is inside some bundle's
/// `Contents/MacOS` directory.
pub open spec fn bundle_name(exe: Seq<char>) -> Option<Seq<char>> {
    if text::first_occurrence(exe, "/Contents/MacOS/"@) is None {
        None
    } else {
        match text::first_occurrence(exe, ".app/"@) {
            None => None,
            Some(i) => {
                let name = text::after_last(exe.take(i as int), '/');
                if name.len() == 0 {
                    None
                } else {
                    Some(name)
                }
            },
        }
    }
}

/// Extract the bundle display name from an executable path, or `None` when
/// the path is not inside an app bundle's `Contents/MacOS` directory.
pub fn app_name(exe: &str) -> (r: Option<String>)
    ensures
        r matches Some(n) ==> bundle_name(exe@) == Some(n@),
        r is None ==> bundle_name(exe@) is None,
{
    let cs = text::chars_of(exe);
    let macos = text::chars_of("/Contents/MacOS/");
    if text::find_chars(&cs, &macos).is_none() {
        return None;
    }
    let bundle = text::chars_of(".app/");
    let idx = match text::find_chars(&cs, &bundle) {
        Some(i) => i,
        None => {
            return None;
        },
    };
    let prefix = text::slice_chars(&cs, 0, idx);
    assert(prefix@ =~= cs@.take(idx as int));
    let name = text::after_last_chars(&prefix, '/');
    if name.len() == 0 {
        None
    } else {
        Some(text::string_of(&name))
    }
}

/// How far up the parent chain `resolve_app` will walk.
pub const MAX_PARENT_DEPTH: usize = 8;

/// Raw per-process facts, before app resolution. The CPU percentage is
/// carried as its `f32::to_bits` pattern, as in `ProcSample`.
#[derive(Debug, Clone)]
pub struct RawProc {
    pub pid: u32,
    pub parent: Option<u32>,
    pub name: String,
    pub exe: Option<String>,
    pub cpu_pct_bits: u32,
    pub mem_bytes: u64,
}

/// The bundle an executable path names, `None` without one.
pub open spec fn exe_bundle(exe: Option<String>) -> Option<Seq<char>> {
    match exe {
        Some(e) => bundle_name(e@),
        None => None,
    }
}

/// The first bundle name met walking from `pid` up the parent chain of
/// `procs`, looking at no more than `steps` processes.
pub open spec fn resolved(procs: Map<u32, RawProc>, pid: u32, steps: nat) -> Option<Seq<char>>
    decreases steps,
{
    if steps == 0 || !procs.contains_key(pid) {
        None
    } else {
        let p = procs[pid];
        if exe_bundle(p.exe) is Some {
            exe_bundle(p.exe)
        } else {
            match p.parent {
                Some(q) => resolved(procs, q, (steps - 1) as nat),
                None => None,
            }
        }
    }
}

/// Walk from `start` up the parent chain, returning the first bundle name
/// found; the walk gives up after `MAX_PARENT_DEPTH` processes, so a cycle
/// in the parent links cannot hang it.
pub fn resolve_app(start: u32, by_pid: &HashMap<u32, RawProc>) -> (r: Option<String>)
    ensures
        r matches Some(n) ==> resolved(by_pid@, start, MAX_PARENT_DEPTH as nat) == Some(n@),
        r is None ==> resolved(by_pid@, start, MAX_PARENT_DEPTH as nat) is None,
{
    broadcast use vstd::std_specs::hash::group_hash_axioms;

    let mut pid = start;
    let mut walked: usize = 0;
    while walked < MAX_PARENT_DEPTH
        invariant
            walked <= MAX_PARENT_DEPTH,
            resolved(by_pid@, start, MAX_PARENT_DEPTH as nat) == resolved(
                by_pid@,
                pid,
                (MAX_PARENT_DEPTH - walked) as nat,
            ),
        decreases MAX_PARENT_DEPTH - walked,
    {
        let p = match by_pid.get(&pid) {
            Some(p) => p,
            None => {
                return None;
            },
        };
        match &p.exe {
            Some(exe) => {
                match app_name(exe.as_str()) {
                    Some(name) => {
                        return Some(name);
                    },
                    None => {},
                }
            },
            None => {},
        }
        pid = match p.parent {
            Some(q) => q,
            None => {
                return None;
            },
        };
        walked += 1;
    }
    None
}

/// The two orders `rank` reports processes in.
#[derive(Debug, Clone, Copy, PartialEq, Eq, Structural)]
pub enum Dimension {
    Cpu,
    Mem,
}

/// Where `f32::total_cmp` puts a single-precision bit pattern: its integer
/// value for a positive sign, and the remaining bits counted backwards
/// below zero for a negative one (so `-0.0` sits just below `+0.0` and a
/// negative NaN below everything).
pub open spec fn cpu_key(bits: u32) -> int {
    if bits < 0x8000_0000 {
        bits as int
    } else {
        0x7fff_ffff - bits
    }
}

/// `a` is listed before `b`: the larger figure first, and the smaller pid
/// first where the figures are equal.
pub open spec fn precedes(d: Dimension, a: ProcSample, b: ProcSample) -> bool {
    match d {
        Dimension::Cpu => {
            ||| cpu_key(a.cpu_pct_bits) > cpu_key(b.cpu_pct_bits)
            ||| cpu_key(a.cpu_pct_bits) == cpu_key(b.cpu_pct_bits) && a.pid < b.pid
        },
        Dimension::Mem => {
            ||| a.mem_mb > b.mem_mb
            ||| a.mem_mb == b.mem_mb && a.pid < b.pid
        },
    }
}

/// `y` placed into `t` just before the first element it precedes, so that
/// it follows every element it ties with.
pub open spec fn insert_ranked(d: Dimension, t: Seq<ProcSample>, y: ProcSample) -> Seq<ProcSample>
    decreases t.len(),
{
    if t.len() == 0 {
        seq![y]
    } else if precedes(d, y, t[0]) {
        seq![y] + t
    } else {
        seq![t[0]] + insert_ranked(d, t.drop_first(), y)
    }
}

/// `s` in the order of `d`, stably: rows that tie keep the order they had.
pub open spec fn ranked(d: Dimension, s: Seq<ProcSample>) -> Seq<ProcSample>
    decreases s.len(),
{
    if s.len() == 0 {
        s
    } else {
        insert_ranked(d, ranked(d, s.drop_last()), s.last())
    }
}

/// The first `n` rows of `ranked(d, s)`, fewer when there are fewer rows.
pub open spec fn top_n(d: Dimension, s: Seq<ProcSample>, n: usize) -> Seq<ProcSample> {
    let r = ranked(d, s);
    if n < r.len() {
        r.take(n as int)
    } else {
        r
    }
}

/// No row of `s` precedes one listed before it.
pub open spec fn in_order(d: Dimension, s: Seq<ProcSample>) -> bool {
    forall|i: int, j: int| 0 <= i < j < s.len() ==> !precedes(d, #[trigger] s[j], #[trigger] s[i])
}

/// Neither of `a` and `b` precedes the other.
pub open spec fn ties(d: Dimension, a: ProcSample, b: ProcSample) -> bool {
    !precedes(d, a, b) && !precedes(d, b, a)
}

/// The index at which `insert_ranked` places `y` into `t`.
spec fn slot(d: Dimension, t: Seq<ProcSample>, y: ProcSample) -> int
    decreases t.len(),
{
    if t.len() == 0 {
        0
    } else if precedes(d, y, t[0]) {
        0
    } else {
        1 + slot(d, t.drop_first(), y)
    }
}

/// A row that precedes `b`, where `c` does not, precedes `c`.
proof fn lemma_precedes_past(d: Dimension, a: ProcSample, b: ProcSample, c: ProcSample)
    requires
        precedes(d, a, b),
        !precedes(d, c, b),
    ensures
        precedes(d, a, c),
{
}

/// Rows that tie with a common row tie with each other.
proof fn lemma_ties_transitive(d: Dimension, a: ProcSample, b: ProcSample, c: ProcSample)
    requires
        ties(d, a, b),
        ties(d, b, c),
    ensures
        ties(d, a, c),
{
}

/// `slot` is where `insert_ranked` puts `y`: after every row `y` does not
/// precede, before the first one it does.
proof fn lemma_slot(d: Dimension, t: Seq<ProcSample>, y: ProcSample)
    ensures
        0 <= slot(d, t, y) <= t.len(),
        insert_ranked(d, t, y) == t.insert(slot(d, t, y), y),
        forall|k: int| 0 <= k < slot(d, t, y) ==> !precedes(d, y, #[trigger] t[k]),
        slot(d, t, y) < t.len() ==> precedes(d, y, t[slot(d, t, y)]),
    decreases t.len(),
{
    if t.len() == 0 {
        assert(t.insert(0, y) =~= seq![y]);
    } else if precedes(d, y, t[0]) {
        assert(t.insert(0, y) =~= seq![y] + t);
    } else {
        let rest = t.drop_first();
        lemma_slot(d, rest, y);
        let j = slot(d, rest, y);
        assert(t.insert(j + 1, y) =~= seq![t[0]] + rest.insert(j, y));
        assert forall|k: int| 0 <= k < j + 1 implies !precedes(d, y, #[trigger] t[k]) by {
            if k > 0 {
                assert(t[k] == rest[k - 1]);
            }
        }
        if j < rest.len() {
            assert(t[j + 1] == rest[j]);
        }
    }
}

/// Inserting into a ranked sequence keeps it ranked.
proof fn lemma_insert_in_order(d: Dimension, t: Seq<ProcSample>, y: ProcSample)
    requires
        in_order(d, t),
    ensures
        in_order(d, insert_ranked(d, t, y)),
{
    lemma_slot(d, t, y);
    let p = slot(d, t, y);
    let r = t.insert(p, y);
    assert forall|i: int, j: int| 0 <= i < j < r.len() implies !precedes(
        d,
        #[trigger] r[j],
        #[trigger] r[i],
    ) by {
        if i < p && j < p {
            assert(r[i] == t[i] && r[j] == t[j]);
        } else if i < p && j == p {
            assert(r[i] == t[i] && r[j] == y);
        } else if i < p {
            assert(r[i] == t[i] && r[j] == t[j - 1]);
        } else if i == p {
            assert(r[i] == y && r[j] == t[j - 1]);
            if j - 1 > p {
                assert(!precedes(d, t[j - 1], t[p]));
            }
            if precedes(d, t[j - 1], y) {
                lemma_precedes_past(d, t[j - 1], y, t[p]);
            }
        } else {
            assert(r[i] == t[i - 1] && r[j] == t[j - 1]);
        }
    }
}

/// The rows of `ranked(d, s)` are in the order of `d`.
pub proof fn lemma_ranked_in_order(d: Dimension, s: Seq<ProcSample>)
    ensures
        in_order(d, ranked(d, s)),
    decreases s.len(),
{
    if s.len() > 0 {
        lemma_ranked_in_order(d, s.drop_last());
        lemma_insert_in_order(d, ranked(d, s.drop_last()), s.last());
    }
}

/// `ranked(d, s)` holds every row of `s` exactly as often as `s` does.
pub proof fn lemma_ranked_permutes(d: Dimension, s: Seq<ProcSample>)
    ensures
        ranked(d, s).to_multiset() == s.to_multiset(),
    decreases s.len(),
{
    broadcast use vstd::seq_lib::to_multiset_insert, vstd::seq_lib::to_multiset_build;

    if s.len() > 0 {
        let t = ranked(d, s.drop_last());
        lemma_ranked_permutes(d, s.drop_last());
        lemma_slot(d, t, s.last());
        assert(s.drop_last().push(s.last()) =~= s);
    }
}

/// Rows that tie keep their relative order: for every row `x`, the rows of
/// `ranked(d, s)` that tie with `x` are those of `s`, in the same order.
pub proof fn lemma_ranked_stable(d: Dimension, s: Seq<ProcSample>, x: ProcSample)
    ensures
        ranked(d, s).filter(|e: ProcSample| ties(d, e, x)) == s.filter(
            |e: ProcSample| ties(d, e, x),
        ),
    decreases s.len(),
{
    broadcast use Seq::filter_distributes_over_add, Seq::lemma_filter_push;

    let pred = |e: ProcSample| ties(d, e, x);
    if s.len() > 0 {
        let y = s.last();
        let t = ranked(d, s.drop_last());
        lemma_ranked_stable(d, s.drop_last(), x);
        lemma_slot(d, t, y);
        lemma_ranked_in_order(d, s.drop_last());
        let p = slot(d, t, y);
        let head = t.take(p);
        let tail = t.skip(p);
        assert(t =~= head + tail);
        assert(t.insert(p, y) =~= head + seq![y] + tail);
        assert(s.drop_last().push(y) =~= s);
        assert(seq![y] =~= Seq::<ProcSample>::empty().push(y));
        assert(Seq::<ProcSample>::empty().filter(pred) =~= Seq::<ProcSample>::empty()) by {
            reveal(Seq::filter);
        }
        if pred(y) {
            assert forall|k: int| 0 <= k < tail.len() implies !pred(#[trigger] tail[k]) by {
                assert(tail[k] == t[p + k]);
                if p + k > p {
                    assert(!precedes(d, t[p + k], t[p]));
                    lemma_precedes_past(d, y, t[p], t[p + k]);
                }
                if pred(tail[k]) {
                    lemma_ties_transitive(d, y, x, tail[k]);
                }
            }
            tail.lemma_all_neg_filter_empty(pred);
            assert(tail.filter(pred) =~= Seq::<ProcSample>::empty());
            assert(head.filter(pred) + seq![y] + tail.filter(pred) =~= (head.filter(pred)
                + tail.filter(pred)).push(y));
        }
    }
}

/// `top_n` gives `n` rows, or every row when there are no more than `n`.
pub proof fn lemma_top_n_len(d: Dimension, s: Seq<ProcSample>, n: usize)
    ensures
        top_n(d, s, n).len() == if n < s.len() {
            n as int
        } else {
            s.len() as int
        },
{
    broadcast use vstd::seq_lib::to_multiset_len;

    lemma_ranked_permutes(d, s);
    assert(ranked(d, s).len() == ranked(d, s).to_multiset().len());
    assert(s.len() == s.to_multiset().len());
}

/// `f32::total_cmp`'s position of a bit pattern, as an integer.
fn cpu_rank_key(bits: u32) -> (k: i64)
    ensures
        k == cpu_key(bits),
{
    if bits < 0x8000_0000 {
        bits as i64
    } else {
        0x7fff_ffff - bits as i64
    }
}

/// Whether `a` is listed before `b` in the order of `d`.
fn comes_before(d: Dimension, a: &ProcSample, b: &ProcSample) -> (r: bool)
    ensures
        r == precedes(d, *a, *b),
{
    match d {
        Dimension::Cpu => {
            let ka = cpu_rank_key(a.cpu_pct_bits);
            let kb = cpu_rank_key(b.cpu_pct_bits);
            ka > kb || (ka == kb && a.pid < b.pid)
        },
        Dimension::Mem => a.mem_mb > b.mem_mb || (a.mem_mb == b.mem_mb && a.pid < b.pid),
    }
}

/// A field-by-field copy of a row.
pub(crate) fn copy_sample(p: &ProcSample) -> (r: ProcSample)
    ensures
        r == *p,
{
    let app = match &p.app {
        Some(a) => Some(a.clone()),
        None => None,
    };
    ProcSample {
        pid: p.pid,
        name: p.name.clone(),
        app,
        cpu_pct_bits: p.cpu_pct_bits,
        mem_mb: p.mem_mb,
        threads: p.threads,
    }
}

/// Placing `y` at the first index `j` whose element it precedes, when it
/// precedes none of the elements before `j`, is `insert_ranked`.
proof fn lemma_insert_at(d: Dimension, t: Seq<ProcSample>, y: ProcSample, j: int)
    requires
        0 <= j <= t.len(),
        forall|k: int| 0 <= k < j ==> !precedes(d, y, #[trigger] t[k]),
        j < t.len() ==> precedes(d, y, t[j]),
    ensures
        insert_ranked(d, t, y) == t.insert(j, y),
    decreases t.len(),
{
    if t.len() == 0 {
        assert(t.insert(j, y) =~= seq![y]);
    } else if j == 0 {
        assert(t.insert(j, y) =~= seq![y] + t);
    } else {
        let rest = t.drop_first();
        assert forall|k: int| 0 <= k < j - 1 implies !precedes(d, y, #[trigger] rest[k]) by {
            assert(rest[k] == t[k + 1]);
        }
        lemma_insert_at(d, rest, y, j - 1);
        assert(t.insert(j, y) =~= seq![t[0]] + rest.insert(j - 1, y));
    }
}

/// `rows` in the order of `d`, built by stable insertion.
fn rank_by(d: Dimension, rows: &Vec<ProcSample>) -> (out: Vec<ProcSample>)
    ensures
        out@ == ranked(d, rows@),
{
    let mut out: Vec<ProcSample> = Vec::new();
    let mut i: usize = 0;
    while i < rows.len()
        invariant
            i <= rows.len(),
            out@ == ranked(d, rows@.take(i as int)),
        decreases rows.len() - i,
    {
        let y = copy_sample(&rows[i]);
        let mut j: usize = 0;
        while j < out.len() && !comes_before(d, &y, &out[j])
            invariant
                j <= out.len(),
                forall|k: int| 0 <= k < j ==> !precedes(d, y, #[trigger] out@[k]),
            decreases out.len() - j,
        {
            j += 1;
        }
        proof {
            lemma_insert_at(d, out@, y, j as int);
            assert(rows@.take(i + 1).drop_last() =~= rows@.take(i as int));
            assert(rows@.take(i + 1).last() == rows@[i as int]);
        }
        out.insert(j, y);
        i += 1;
    }
    assert(rows@.take(rows.len() as int) =~= rows@);
    out
}

/// Top `n` by CPU and top `n` by memory, each sorted descending with pid as
/// the tie-break so repeated runs are byte-identical on an idle machine.
pub fn rank(rows: Vec<ProcSample>, n: usize) -> (r: (Vec<ProcSample>, Vec<ProcSample>))
    ensures
        r.0@ == top_n(Dimension::Cpu, rows@, n),
        r.1@ == top_n(Dimension::Mem, rows@, n),
{
    let mut by_cpu = rank_by(Dimension::Cpu, &rows);
    by_cpu.truncate(n);
    let mut by_mem = rank_by(Dimension::Mem, &rows);
    by_mem.truncate(n);
    (by_cpu, by_mem)
}

} // verus!
