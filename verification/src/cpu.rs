//! CPU bookkeeping: per-CPU load computed from two readings of the kernel's
//! counters, and the choice of a pin target for an optimized process.
//!
//! Loads are expressed in permyriad (hundredths of a percent) of the elapsed
//! time: `busy_delta * 10000 / total_delta`, where busy is user + nice +
//! system + irq + softirq and total also counts idle + iowait. A zero total
//! yields zero.

use vstd::arithmetic::div_mod::lemma_fundamental_div_mod;
use vstd::prelude::*;

verus! {

/// ASCII space, the field separator of the kernel's stat lines.
pub const BYTE_SPACE: u8 = 32;

/// ASCII line feed, the line separator.
pub const BYTE_NEWLINE: u8 = 10;

/// One CPU's cumulative time counters, as the kernel reports them.
#[derive(Clone, Copy, Debug, PartialEq, Eq, Structural)]
pub struct CpuTimes {
    pub user: u64,
    pub nice: u64,
    pub system: u64,
    pub idle: u64,
    pub iowait: u64,
    pub irq: u64,
    pub softirq: u64,
}

/// Counters only ever grow: a later reading dominates an earlier one.
pub open spec fn times_monotone(s: CpuTimes, e: CpuTimes) -> bool {
    &&& e.user >= s.user
    &&& e.nice >= s.nice
    &&& e.system >= s.system
    &&& e.idle >= s.idle
    &&& e.iowait >= s.iowait
    &&& e.irq >= s.irq
    &&& e.softirq >= s.softirq
}

/// Time spent busy between the two readings.
pub open spec fn spec_busy_delta(s: CpuTimes, e: CpuTimes) -> int {
    (e.user - s.user) + (e.nice - s.nice) + (e.system - s.system) + (e.irq - s.irq) + (e.softirq
        - s.softirq)
}

/// Total time between the two readings, idle and iowait included.
pub open spec fn spec_total_delta(s: CpuTimes, e: CpuTimes) -> int {
    spec_busy_delta(s, e) + (e.idle - s.idle) + (e.iowait - s.iowait)
}

/// The load in permyriad; zero when no time passed.
pub open spec fn spec_load(s: CpuTimes, e: CpuTimes) -> int {
    if spec_total_delta(s, e) == 0 {
        0
    } else {
        spec_busy_delta(s, e) * 10000 / spec_total_delta(s, e)
    }
}

/// One CPU's load between two readings, in permyriad.
pub fn cpu_load_permyriad(start: &CpuTimes, end: &CpuTimes) -> (r: u64)
    requires
        times_monotone(*start, *end),
    ensures
        r == spec_load(*start, *end),
        r <= 10000,
{
    let busy: u128 = (end.user - start.user) as u128 + (end.nice - start.nice) as u128 + (end.system
        - start.system) as u128 + (end.irq - start.irq) as u128 + (end.softirq
        - start.softirq) as u128;
    let total: u128 = busy + (end.idle - start.idle) as u128 + (end.iowait - start.iowait) as u128;
    if total == 0 {
        0
    } else {
        proof {
            assert((busy as int) * 10000 / (total as int) <= 10000) by (nonlinear_arith)
                requires
                    0 <= busy as int <= total as int,
                    total as int > 0,
            ;
            assert((busy as int) * 10000 / (total as int) >= 0) by (nonlinear_arith)
                requires
                    0 <= busy as int,
                    total as int > 0,
            ;
        }
        ((busy * 10000) / total) as u64
    }
}

/// The loads of every CPU between two rounds of readings, index by index.
pub fn compute_loads(start: &Vec<CpuTimes>, end: &Vec<CpuTimes>) -> (r: Vec<u64>)
    requires
        start@.len() == end@.len(),
        forall|i: int| 0 <= i < start@.len() ==> times_monotone(start@[i], end@[i]),
    ensures
        r@.len() == start@.len(),
        forall|i: int| 0 <= i < r@.len() ==> r@[i] == spec_load(start@[i], end@[i]),
{
    let mut r: Vec<u64> = Vec::new();
    let mut i: usize = 0;
    while i < start.len()
        invariant
            i <= start@.len(),
            start@.len() == end@.len(),
            forall|j: int| 0 <= j < start@.len() ==> times_monotone(start@[j], end@[j]),
            r@.len() == i,
            forall|j: int| 0 <= j < i ==> r@[j] == spec_load(start@[j], end@[j]),
        decreases start@.len() - i,
    {
        let l = cpu_load_permyriad(&start[i], &end[i]);
        r.push(l);
        i = i + 1;
    }
    r
}

/// Picks the CPU an optimized process is pinned to: among the CPUs whose
/// topology core id is positive (core 0 is left to the kernel), the one
/// with the least load, earliest index on a tie — that is, the first hit
/// of a walk of the CPUs in ascending-load order. When every core id is 0,
/// CPU 0 remains the target.
pub fn pick_pin_cpu(loads: &Vec<u64>, core_ids: &Vec<u64>) -> (r: usize)
    requires
        loads@.len() == core_ids@.len(),
    ensures
        (exists|i: int| 0 <= i < core_ids@.len() && core_ids@[i] > 0) ==> r < loads@.len()
            && core_ids@[r as int] > 0 && (forall|j: int|
            0 <= j < loads@.len() && core_ids@[j] > 0 ==> (loads@[r as int] < loads@[j] || (
            loads@[r as int] == loads@[j] && r <= j))),
        !(exists|i: int| 0 <= i < core_ids@.len() && core_ids@[i] > 0) ==> r == 0,
{
    let mut best: usize = 0;
    let mut found = false;
    let mut i: usize = 0;
    while i < loads.len()
        invariant
            i <= loads@.len(),
            loads@.len() == core_ids@.len(),
            !found ==> best == 0 && (forall|j: int| 0 <= j < i ==> core_ids@[j] == 0),
            found ==> best < i && core_ids@[best as int] > 0 && (forall|j: int|
                0 <= j < i && core_ids@[j] > 0 ==> (loads@[best as int] < loads@[j] || (
                loads@[best as int] == loads@[j] && best <= j))),
        decreases loads@.len() - i,
    {
        if core_ids[i] > 0 && (!found || loads[i] < loads[best]) {
            best = i;
            found = true;
        }
        i = i + 1;
    }
    best
}

/// Index of the first `sep` at or after `from`, or the length.
pub open spec fn spec_find(s: Seq<u8>, from: int, sep: u8) -> int
    decreases s.len() - from,
{
    if from >= s.len() {
        s.len() as int
    } else if from < 0 {
        spec_find(s, 0, sep)
    } else if s[from] == sep {
        from
    } else {
        spec_find(s, from + 1, sep)
    }
}

pub proof fn lemma_find(s: Seq<u8>, from: int, sep: u8)
    requires
        0 <= from <= s.len(),
    ensures
        from <= spec_find(s, from, sep) <= s.len(),
        spec_find(s, from, sep) < s.len() ==> s[spec_find(s, from, sep)] == sep,
        forall|j: int| from <= j < spec_find(s, from, sep) ==> s[j] != sep,
    decreases s.len() - from,
{
    if from >= s.len() {
    } else if s[from] == sep {
    } else {
        lemma_find(s, from + 1, sep);
    }
}

/// The segments of `s` from `from` on, split on `sep`: always one more
/// segment than there are separators.
pub open spec fn spec_split(s: Seq<u8>, from: int, sep: u8) -> Seq<Seq<u8>>
    decreases s.len() - from,
    via spec_split_dec
{
    if from < 0 {
        spec_split(s, 0, sep)
    } else {
        let j = spec_find(s, from, sep);
        if j >= s.len() {
            seq![s.subrange(from, s.len() as int)]
        } else {
            seq![s.subrange(from, j)] + spec_split(s, j + 1, sep)
        }
    }
}

#[via_fn]
proof fn spec_split_dec(s: Seq<u8>, from: int, sep: u8) {
    if 0 <= from <= s.len() {
        lemma_find(s, from, sep);
    }
}

/// The contents of a list of byte buffers.
pub open spec fn segs_view(v: Seq<Vec<u8>>) -> Seq<Seq<u8>> {
    v.map(|i: int, x: Vec<u8>| x@)
}

/// Index of the first `sep` at or after `from`, executably.
fn find_byte(s: &Vec<u8>, from: usize, sep: u8) -> (r: usize)
    requires
        from <= s@.len(),
    ensures
        r == spec_find(s@, from as int, sep),
        from <= r <= s@.len(),
{
    let mut i: usize = from;
    while i < s.len()
        invariant
            from <= i <= s@.len(),
            forall|j: int| from <= j < i ==> s@[j] != sep,
        decreases s@.len() - i,
    {
        if s[i] == sep {
            proof {
                lemma_find(s@, from as int, sep);
                let f = spec_find(s@, from as int, sep);
                if f < i {
                    assert(s@[f] != sep);
                }
                if f > i {
                    assert(s@[i as int] != sep);
                }
            }
            return i;
        }
        i = i + 1;
    }
    proof {
        lemma_find(s@, from as int, sep);
        let f = spec_find(s@, from as int, sep);
        if f < s@.len() {
            assert(s@[f] != sep);
        }
    }
    i
}

/// The bytes of `s` between `from` and `to`.
fn copy_range(s: &Vec<u8>, from: usize, to: usize) -> (r: Vec<u8>)
    requires
        from <= to <= s@.len(),
    ensures
        r@ == s@.subrange(from as int, to as int),
{
    let mut r: Vec<u8> = Vec::new();
    let mut i: usize = from;
    while i < to
        invariant
            from <= i <= to <= s@.len(),
            r@ == s@.subrange(from as int, i as int),
        decreases to - i,
    {
        r.push(s[i]);
        proof {
            assert(s@.subrange(from as int, i + 1) =~= s@.subrange(from as int, i as int).push(
                s@[i as int]));
        }
        i = i + 1;
    }
    r
}

/// The segments of `s` from `from` on, executably.
fn split_from(s: &Vec<u8>, from: usize, sep: u8) -> (r: Vec<Vec<u8>>)
    requires
        from <= s@.len(),
    ensures
        segs_view(r@) == spec_split(s@, from as int, sep),
    decreases s@.len() - from,
{
    let j = find_byte(s, from, sep);
    let seg = copy_range(s, from, j);
    if j >= s.len() {
        let mut r: Vec<Vec<u8>> = Vec::new();
        r.push(seg);
        proof {
            assert(segs_view(r@) =~= seq![s@.subrange(from as int, s@.len() as int)]);
        }
        r
    } else {
        let mut rest = split_from(s, j + 1, sep);
        let ghost rest0 = rest@;
        let mut r: Vec<Vec<u8>> = Vec::new();
        r.push(seg);
        r.append(&mut rest);
        proof {
            assert(segs_view(r@) =~= seq![seg@] + segs_view(rest0));
            assert(segs_view(r@) =~= spec_split(s@, from as int, sep));
        }
        r
    }
}

/// Splits `s` on `sep`: one segment more than there are separators, in order.
pub fn split_bytes(s: &Vec<u8>, sep: u8) -> (r: Vec<Vec<u8>>)
    ensures
        segs_view(r@) == spec_split(s@, 0, sep),
{
    split_from(s, 0, sep)
}

/// An ASCII decimal digit.
pub open spec fn is_digit(b: u8) -> bool {
    48 <= b <= 57
}

pub open spec fn all_digits(s: Seq<u8>) -> bool {
    forall|i: int| 0 <= i < s.len() ==> is_digit(#[trigger] s[i])
}

/// The number the digits spell, most significant first.
pub open spec fn digits_val(s: Seq<u8>) -> int
    decreases s.len(),
{
    if s.len() == 0 {
        0
    } else {
        digits_val(s.drop_last()) * 10 + (s.last() - 48)
    }
}

/// A decimal number: at least one digit, digits only, and a value that
/// fits.
pub open spec fn spec_parse_u64(s: Seq<u8>) -> Option<u64> {
    if s.len() > 0 && all_digits(s) && digits_val(s) <= u64::MAX {
        Some(digits_val(s) as u64)
    } else {
        None
    }
}

pub proof fn lemma_digits_val_nonneg(s: Seq<u8>)
    requires
        all_digits(s),
    ensures
        digits_val(s) >= 0,
    decreases s.len(),
{
    if s.len() > 0 {
        assert(all_digits(s.drop_last()));
        lemma_digits_val_nonneg(s.drop_last());
    }
}

pub proof fn lemma_digits_val_prefix_le(s: Seq<u8>, k: int)
    requires
        all_digits(s),
        0 <= k <= s.len(),
    ensures
        digits_val(s.take(k)) <= digits_val(s),
    decreases s.len() - k,
{
    if k < s.len() {
        lemma_digits_val_prefix_le(s, k + 1);
        assert(s.take(k + 1).drop_last() =~= s.take(k));
        assert(all_digits(s.take(k)));
        lemma_digits_val_nonneg(s.take(k));
        assert(digits_val(s.take(k + 1)) == digits_val(s.take(k)) * 10 + (s[k] - 48));
    } else {
        assert(s.take(k) =~= s);
    }
}

/// Reads a decimal `u64`; `None` when `s` is empty, holds a non-digit, or
/// spells a value that does not fit.
pub fn parse_u64(s: &Vec<u8>) -> (r: Option<u64>)
    ensures
        r == spec_parse_u64(s@),
{
    if s.len() == 0 {
        return None;
    }
    let mut acc: u64 = 0;
    let mut i: usize = 0;
    while i < s.len()
        invariant
            i <= s@.len(),
            s@.len() > 0,
            all_digits(s@.take(i as int)),
            acc as int == digits_val(s@.take(i as int)),
        decreases s@.len() - i,
    {
        let b = s[i];
        if b < 48 || b > 57 {
            proof {
                assert(!is_digit(s@[i as int]));
            }
            return None;
        }
        let d: u64 = (b - 48) as u64;
        proof {
            assert(s@.take(i + 1).drop_last() =~= s@.take(i as int));
            assert(all_digits(s@.take(i + 1)));
            assert(digits_val(s@.take(i + 1)) == acc * 10 + d);
        }
        if acc > (u64::MAX - d) / 10 {
            proof {
                lemma_fundamental_div_mod(u64::MAX - d, 10);
                assert(acc * 10 + d > u64::MAX);
                if all_digits(s@) {
                    lemma_digits_val_prefix_le(s@, i + 1);
                }
            }
            return None;
        }
        acc = acc * 10 + d;
        i = i + 1;
    }
    proof {
        assert(s@.take(s@.len() as int) =~= s@);
    }
    Some(acc)
}

/// One stat line: a label field, then at least seven counters — user, nice,
/// system, idle, iowait, irq, softirq.
pub open spec fn spec_parse_cpu_line(line: Seq<u8>) -> Option<CpuTimes> {
    let f = spec_split(line, 0, BYTE_SPACE);
    if f.len() < 8 {
        None
    } else {
        match (
            spec_parse_u64(f[1]),
            spec_parse_u64(f[2]),
            spec_parse_u64(f[3]),
            spec_parse_u64(f[4]),
            spec_parse_u64(f[5]),
            spec_parse_u64(f[6]),
            spec_parse_u64(f[7]),
        ) {
            (
                Some(user),
                Some(nice),
                Some(system),
                Some(idle),
                Some(iowait),
                Some(irq),
                Some(softirq),
            ) => Some(CpuTimes { user, nice, system, idle, iowait, irq, softirq }),
            _ => None,
        }
    }
}

/// Every line parsed, in order; `None` as soon as one fails.
pub open spec fn spec_parse_lines(lines: Seq<Seq<u8>>) -> Option<Seq<CpuTimes>>
    decreases lines.len(),
{
    if lines.len() == 0 {
        Some(Seq::<CpuTimes>::empty())
    } else {
        match (spec_parse_lines(lines.drop_last()), spec_parse_cpu_line(lines.last())) {
            (Some(v), Some(t)) => Some(v.push(t)),
            _ => None,
        }
    }
}

/// The kernel's stat text: the first line aggregates all CPUs and is
/// skipped; the next `ncpus` lines are the per-CPU counters.
pub open spec fn spec_parse_stat(t: Seq<u8>, ncpus: int) -> Option<Seq<CpuTimes>> {
    let lines = spec_split(t, 0, BYTE_NEWLINE);
    if lines.len() < 1 + ncpus {
        None
    } else {
        spec_parse_lines(lines.subrange(1, 1 + ncpus))
    }
}

/// One failing line fails the whole list.
pub proof fn lemma_parse_lines_none(lines: Seq<Seq<u8>>, k: int)
    requires
        0 <= k < lines.len(),
        spec_parse_cpu_line(lines[k]) is None,
    ensures
        spec_parse_lines(lines) is None,
    decreases lines.len(),
{
    if k == lines.len() - 1 {
    } else {
        lemma_parse_lines_none(lines.drop_last(), k);
    }
}

/// Reads the seven counters of one stat line; `None` when the line has
/// fewer than eight fields or a counter is not a plain decimal.
pub fn parse_cpu_line(line: &Vec<u8>) -> (r: Option<CpuTimes>)
    ensures
        r == spec_parse_cpu_line(line@),
{
    let f = split_bytes(line, BYTE_SPACE);
    proof {
        assert(forall|i: int|
            0 <= i < f@.len() ==> #[trigger] f@[i]@ == segs_view(f@)[i]);
    }
    if f.len() < 8 {
        return None;
    }
    let user = parse_u64(&f[1]);
    let nice = parse_u64(&f[2]);
    let system = parse_u64(&f[3]);
    let idle = parse_u64(&f[4]);
    let iowait = parse_u64(&f[5]);
    let irq = parse_u64(&f[6]);
    let softirq = parse_u64(&f[7]);
    match (user, nice, system, idle, iowait, irq, softirq) {
        (Some(user), Some(nice), Some(system), Some(idle), Some(iowait), Some(irq), Some(softirq)) => Some(
            CpuTimes { user, nice, system, idle, iowait, irq, softirq },
        ),
        _ => None,
    }
}

/// Reads the per-CPU counters out of a whole stat text: line 0 (the
/// aggregate) is skipped, lines 1 through `ncpus` must each parse.
pub fn parse_proc_stat(text: &Vec<u8>, ncpus: usize) -> (r: Option<Vec<CpuTimes>>)
    ensures
        match r {
            Some(v) => spec_parse_stat(text@, ncpus as int) == Some(v@),
            None => spec_parse_stat(text@, ncpus as int) is None,
        },
{
    let lines = split_bytes(text, BYTE_NEWLINE);
    proof {
        assert(forall|i: int|
            0 <= i < lines@.len() ==> #[trigger] lines@[i]@ == segs_view(lines@)[i]);
    }
    if lines.len() < 1 || lines.len() - 1 < ncpus {
        return None;
    }
    let ghost lseq = segs_view(lines@).subrange(1, 1 + ncpus as int);
    let mut out: Vec<CpuTimes> = Vec::new();
    let mut k: usize = 0;
    proof {
        assert(lseq.take(0) =~= Seq::<Seq<u8>>::empty());
    }
    while k < ncpus
        invariant
            k <= ncpus,
            1 + ncpus <= lines@.len(),
            segs_view(lines@) == spec_split(text@, 0, BYTE_NEWLINE),
            lseq == segs_view(lines@).subrange(1, 1 + ncpus as int),
            forall|i: int| 0 <= i < lines@.len() ==> #[trigger] lines@[i]@ == segs_view(lines@)[i],
            spec_parse_lines(lseq.take(k as int)) == Some(out@),
        decreases ncpus - k,
    {
        match parse_cpu_line(&lines[1 + k]) {
            None => {
                proof {
                    assert(lseq[k as int] == lines@[1 + k as int]@);
                    lemma_parse_lines_none(lseq, k as int);
                }
                return None;
            },
            Some(t) => {
                out.push(t);
                proof {
                    assert(lseq.take(k + 1).drop_last() =~= lseq.take(k as int));
                    assert(lseq.take(k + 1).last() == lines@[1 + k as int]@);
                }
            },
        }
        k = k + 1;
    }
    proof {
        assert(lseq.take(ncpus as int) =~= lseq);
    }
    Some(out)
}

/// ASCII whitespace, as it appears around a number in a sysfs file.
pub open spec fn is_ws(b: u8) -> bool {
    b == 32 || b == 9 || b == 10 || b == 13
}

/// `s` without leading whitespace.
pub open spec fn spec_trim_start(s: Seq<u8>) -> Seq<u8>
    decreases s.len(),
{
    if s.len() > 0 && is_ws(s[0]) {
        spec_trim_start(s.drop_first())
    } else {
        s
    }
}

/// `s` without trailing whitespace.
pub open spec fn spec_trim_end(s: Seq<u8>) -> Seq<u8>
    decreases s.len(),
{
    if s.len() > 0 && is_ws(s.last()) {
        spec_trim_end(s.drop_last())
    } else {
        s
    }
}

/// The number a topology file spells: its text with surrounding whitespace
/// dropped, read as a decimal.
pub open spec fn spec_parse_core_id(s: Seq<u8>) -> Option<u64> {
    spec_parse_u64(spec_trim_end(spec_trim_start(s)))
}

proof fn lemma_trim_start_at(s: Seq<u8>, k: int)
    requires
        0 <= k <= s.len(),
        forall|j: int| 0 <= j < k ==> is_ws(s[j]),
        k < s.len() ==> !is_ws(s[k]),
    ensures
        spec_trim_start(s) == s.subrange(k, s.len() as int),
    decreases k,
{
    if k == 0 {
        if s.len() > 0 && is_ws(s[0]) {
            assert(false);
        }
        assert(s.subrange(0, s.len() as int) =~= s);
    } else {
        let d = s.drop_first();
        lemma_trim_start_at(d, k - 1);
        assert(d.subrange(k - 1, d.len() as int) =~= s.subrange(k, s.len() as int));
    }
}

proof fn lemma_trim_end_at(s: Seq<u8>, k: int)
    requires
        0 <= k <= s.len(),
        forall|j: int| k <= j < s.len() ==> is_ws(s[j]),
        k > 0 ==> !is_ws(s[k - 1]),
    ensures
        spec_trim_end(s) == s.subrange(0, k),
    decreases s.len() - k,
{
    if k == s.len() {
        if s.len() > 0 && is_ws(s.last()) {
            lemma_trim_end_at(s.drop_last(), k - 1);
            assert(s.drop_last().subrange(0, k - 1) =~= s.subrange(0, k - 1));
            assert(false);
        } else {
            assert(s.subrange(0, k) =~= s);
        }
    } else {
        let d = s.drop_last();
        lemma_trim_end_at(d, k);
        assert(d.subrange(0, k) =~= s.subrange(0, k));
    }
}

/// Reads the decimal in a topology file, whitespace around it ignored.
pub fn parse_core_id(s: &Vec<u8>) -> (r: Option<u64>)
    ensures
        r == spec_parse_core_id(s@),
{
    let mut lo: usize = 0;
    while lo < s.len() && (s[lo] == 32 || s[lo] == 9 || s[lo] == 10 || s[lo] == 13)
        invariant
            lo <= s@.len(),
            forall|j: int| 0 <= j < lo ==> is_ws(s@[j]),
        decreases s@.len() - lo,
    {
        lo = lo + 1;
    }
    let mut hi: usize = s.len();
    while hi > lo && (s[hi - 1] == 32 || s[hi - 1] == 9 || s[hi - 1] == 10 || s[hi - 1] == 13)
        invariant
            lo <= hi <= s@.len(),
            forall|j: int| 0 <= j < lo ==> is_ws(s@[j]),
            forall|j: int| hi <= j < s@.len() ==> is_ws(s@[j]),
        decreases hi,
    {
        hi = hi - 1;
    }
    let mid = copy_range(s, lo, hi);
    proof {
        lemma_trim_start_at(s@, lo as int);
        let t = s@.subrange(lo as int, s@.len() as int);
        lemma_trim_end_at(t, hi - lo);
        assert(t.subrange(0, hi - lo) =~= s@.subrange(lo as int, hi as int));
    }
    parse_u64(&mid)
}

/// Whether `needle` occurs contiguously in `hay`.
pub open spec fn contains_sub(hay: Seq<u8>, needle: Seq<u8>) -> bool {
    exists|i: int|
        0 <= i <= hay.len() - needle.len() && #[trigger] hay.subrange(i, i + needle.len())
            == needle
}

/// Whether `needle` starts at `i` in `hay`.
fn match_at(hay: &Vec<u8>, needle: &Vec<u8>, i: usize) -> (r: bool)
    requires
        i + needle@.len() <= hay@.len(),
    ensures
        r == (hay@.subrange(i as int, i as int + needle@.len() as int) == needle@),
{
    let hlen = hay.len();
    let mut j: usize = 0;
    while j < needle.len()
        invariant
            j <= needle@.len(),
            hlen == hay@.len(),
            i + needle@.len() <= hay@.len(),
            forall|k: int| 0 <= k < j ==> hay@[i + k] == needle@[k],
        decreases needle@.len() - j,
    {
        if hay[i + j] != needle[j] {
            proof {
                assert(hay@.subrange(i as int, i as int + needle@.len() as int)[j as int]
                    != needle@[j as int]);
            }
            return false;
        }
        j = j + 1;
    }
    proof {
        assert(hay@.subrange(i as int, i as int + needle@.len() as int) =~= needle@);
    }
    true
}

/// Whether the text of an available-governors file lists the wanted
/// governor, that is, holds its name contiguously — what deciding a
/// governor's availability comes down to once the file is read.
pub fn governor_listed(hay: &Vec<u8>, needle: &Vec<u8>) -> (r: bool)
    ensures
        r == contains_sub(hay@, needle@),
{
    if needle.len() > hay.len() {
        return false;
    }
    if needle.len() == 0 {
        proof {
            assert(hay@.subrange(0, 0 + needle@.len() as int) =~= needle@);
            assert(contains_sub(hay@, needle@));
        }
        return true;
    }
    let mut i: usize = 0;
    let end = hay.len() - needle.len();
    while i <= end
        invariant
            1 <= needle@.len() <= hay@.len(),
            hay@.len() <= usize::MAX,
            end == hay@.len() - needle@.len(),
            end < hay@.len(),
            i <= end + 1,
            forall|k: int|
                0 <= k < i ==> #[trigger] hay@.subrange(k, k + needle@.len()) != needle@,
        decreases end + 1 - i,
    {
        if match_at(hay, needle, i) {
            return true;
        }
        i = i + 1;
    }
    false
}

} // verus!
