use vstd::prelude::*;
use vstd::arithmetic::div_mod::lemma_div_is_ordered_by_denominator;
use crate::options::TextType;
use crate::speed::Speed;
use crate::symbol::ActionTimingTable;
use crate::symbol::Symbol;

verus! {

/// Why a symbol sequence has no timing.
#[derive(Clone, Copy, Debug, PartialEq, Eq, Structural)]
pub enum TimingError {
    /// The sequence has more speed markers than the profile has speeds.
    ProfileTooShort,
    /// The starting speed, or a speed that a marker selects, is not positive.
    InvalidSpeed,
    /// The total duration does not fit in 64 bits of nanoseconds.
    Overflow,
}

/// The timing of a symbol sequence, in nanoseconds.
pub struct Timing {
    /// Duration of each symbol.
    pub symbol_ns: Vec<u64>,
    /// Duration of the whole sequence.
    pub total_ns: u64,
    /// Elapsed time at the start and after each character or word gap.
    pub checkpoints_ns: Vec<u64>,
}

/// Duration of one tone unit at the reference speed 100, in nanoseconds:
/// 50 ms for letters, 34 ms for digits, 42 ms for mixed text.
pub open spec fn base_unit_ns(text_type: TextType) -> nat {
    match text_type {
        TextType::Letters => 50_000_000,
        TextType::Digits => 34_000_000,
        TextType::Mixed => 42_000_000,
    }
}

pub open spec fn speed_valid(s: Speed) -> bool {
    s.num > 0 && s.den > 0
}

/// Duration of one tone unit at speed `s`: the base unit times 100 divided
/// by the speed, in whole nanoseconds (rounded down).
pub open spec fn unit_ns(text_type: TextType, s: Speed) -> nat
    recommends
        speed_valid(s),
{
    ((base_unit_ns(text_type) * 100 * s.den) / (s.num as int)) as nat
}

/// Number of speed markers among the first `k` symbols.
pub open spec fn markers_in(syms: Seq<Symbol>, k: int) -> nat
    decreases k,
{
    if k <= 0 {
        0
    } else {
        markers_in(syms, k - 1) + if syms[k - 1] == Symbol::SpeedMarker {
            1nat
        } else {
            0nat
        }
    }
}

/// The speed in effect at symbol `k`: the starting speed until the first
/// marker, then the profile entry that the latest marker selected.
pub open spec fn speed_at(syms: Seq<Symbol>, k: int, start: Speed, profile: Seq<Speed>) -> Speed {
    let m = markers_in(syms, k);
    if m == 0 {
        start
    } else {
        profile[m - 1]
    }
}

pub open spec fn symbol_ns(
    syms: Seq<Symbol>,
    k: int,
    table: ActionTimingTable,
    text_type: TextType,
    start: Speed,
    profile: Seq<Speed>,
) -> nat {
    table.units_of(syms[k]) * unit_ns(text_type, speed_at(syms, k, start, profile))
}

/// Time elapsed after the first `k` symbols.
pub open spec fn elapsed_ns(
    syms: Seq<Symbol>,
    k: int,
    table: ActionTimingTable,
    text_type: TextType,
    start: Speed,
    profile: Seq<Speed>,
) -> nat
    decreases k,
{
    if k <= 0 {
        0
    } else {
        elapsed_ns(syms, k - 1, table, text_type, start, profile) + symbol_ns(
            syms,
            k - 1,
            table,
            text_type,
            start,
            profile,
        )
    }
}

/// The checkpoints after the first `k` symbols: 0, then the elapsed time
/// after each character or word gap.
pub open spec fn checkpoints_of(
    syms: Seq<Symbol>,
    k: int,
    table: ActionTimingTable,
    text_type: TextType,
    start: Speed,
    profile: Seq<Speed>,
) -> Seq<nat>
    decreases k,
{
    if k <= 0 {
        seq![0nat]
    } else {
        let prev = checkpoints_of(syms, k - 1, table, text_type, start, profile);
        if syms[k - 1] == Symbol::CharacterGap || syms[k - 1] == Symbol::WordGap {
            prev.push(elapsed_ns(syms, k, table, text_type, start, profile))
        } else {
            prev
        }
    }
}

pub open spec fn sum_of(s: Seq<u64>) -> nat
    decreases s.len(),
{
    if s.len() == 0 {
        0
    } else {
        sum_of(s.drop_last()) + s.last() as nat
    }
}

/// Every speed that the sequence reads is positive.
pub open spec fn speeds_valid(syms: Seq<Symbol>, start: Speed, profile: Seq<Speed>) -> bool {
    &&& speed_valid(start)
    &&& forall|j: int| 0 <= j < markers_in(syms, syms.len() as int) ==> speed_valid(#[trigger] profile[j])
}

/// The first reason, if any, why the sequence has no timing.
pub open spec fn timing_error(
    syms: Seq<Symbol>,
    table: ActionTimingTable,
    text_type: TextType,
    start: Speed,
    profile: Seq<Speed>,
) -> Option<TimingError> {
    if markers_in(syms, syms.len() as int) > profile.len() {
        Some(TimingError::ProfileTooShort)
    } else if !speeds_valid(syms, start, profile) {
        Some(TimingError::InvalidSpeed)
    } else if elapsed_ns(syms, syms.len() as int, table, text_type, start, profile) > u64::MAX {
        Some(TimingError::Overflow)
    } else {
        None
    }
}

/// Two sequences that agree on their first `k` symbols have as many markers
/// there.
pub proof fn lemma_markers_agree(a: Seq<Symbol>, b: Seq<Symbol>, k: int)
    requires
        0 <= k <= a.len(),
        k <= b.len(),
        forall|i: int| 0 <= i < k ==> a[i] == b[i],
    ensures
        markers_in(a, k) == markers_in(b, k),
    decreases k,
{
    if k > 0 {
        lemma_markers_agree(a, b, k - 1);
    }
}

pub open spec fn marker_total(s: Seq<Symbol>) -> nat {
    markers_in(s, s.len() as int)
}

pub proof fn lemma_markers_push(s: Seq<Symbol>, x: Symbol)
    ensures
        marker_total(s.push(x)) == marker_total(s) + if x == Symbol::SpeedMarker {
            1nat
        } else {
            0nat
        },
{
    lemma_markers_agree(s, s.push(x), s.len() as int);
}

pub proof fn lemma_markers_concat(a: Seq<Symbol>, b: Seq<Symbol>)
    ensures
        marker_total(a + b) == marker_total(a) + marker_total(b),
    decreases b.len(),
{
    if b.len() == 0 {
        assert(a + b =~= a);
    } else {
        let front = b.drop_last();
        lemma_markers_concat(a, front);
        assert(a + b =~= (a + front).push(b.last()));
        assert(b =~= front.push(b.last()));
        lemma_markers_push(a + front, b.last());
        lemma_markers_push(front, b.last());
    }
}

/// Replacing the last symbol changes the count only by what was replaced.
pub proof fn lemma_markers_update_last(s: Seq<Symbol>, x: Symbol)
    requires
        s.len() > 0,
    ensures
        marker_total(s.update(s.len() - 1, x)) + (if s.last() == Symbol::SpeedMarker {
            1nat
        } else {
            0nat
        }) == marker_total(s) + if x == Symbol::SpeedMarker {
            1nat
        } else {
            0nat
        },
{
    let t = s.update(s.len() - 1, x);
    lemma_markers_agree(s, t, s.len() - 1);
}

/// A prefix without speed markers is timed at the starting speed alone,
/// whatever follows it and whatever the profile.
pub proof fn lemma_elapsed_marker_free_prefix(
    a: Seq<Symbol>,
    b: Seq<Symbol>,
    k: int,
    table: ActionTimingTable,
    text_type: TextType,
    start: Speed,
    p1: Seq<Speed>,
    p2: Seq<Speed>,
)
    requires
        0 <= k <= a.len(),
        markers_in(a, k) == 0,
    ensures
        elapsed_ns(a + b, k, table, text_type, start, p1) == elapsed_ns(
            a,
            k,
            table,
            text_type,
            start,
            p2,
        ),
    decreases k,
{
    if k > 0 {
        lemma_markers_monotone(a, k - 1, k);
        lemma_elapsed_marker_free_prefix(a, b, k - 1, table, text_type, start, p1, p2);
        lemma_markers_agree(a, a + b, k - 1);
        assert((a + b)[k - 1] == a[k - 1]);
    }
}

pub proof fn lemma_markers_monotone(syms: Seq<Symbol>, j: int, k: int)
    requires
        j <= k,
    ensures
        markers_in(syms, j) <= markers_in(syms, k),
    decreases k - j,
{
    if j < k {
        lemma_markers_monotone(syms, j, k - 1);
    }
}

pub proof fn lemma_elapsed_monotone(
    syms: Seq<Symbol>,
    j: int,
    k: int,
    table: ActionTimingTable,
    text_type: TextType,
    start: Speed,
    profile: Seq<Speed>,
)
    requires
        j <= k,
    ensures
        elapsed_ns(syms, j, table, text_type, start, profile) <= elapsed_ns(
            syms,
            k,
            table,
            text_type,
            start,
            profile,
        ),
    decreases k - j,
{
    if j < k {
        lemma_elapsed_monotone(syms, j, k - 1, table, text_type, start, profile);
    }
}

/// Starting faster never lengthens a prefix of a sequence: with the same
/// profile, each symbol before the first marker gets a shorter or equal unit.
pub proof fn lemma_elapsed_faster_start(
    syms: Seq<Symbol>,
    k: int,
    table: ActionTimingTable,
    text_type: TextType,
    slow: Speed,
    fast: Speed,
    profile: Seq<Speed>,
)
    requires
        slow.den == 1,
        fast.den == 1,
        0 < slow.num <= fast.num,
    ensures
        elapsed_ns(syms, k, table, text_type, fast, profile) <= elapsed_ns(
            syms,
            k,
            table,
            text_type,
            slow,
            profile,
        ),
    decreases k,
{
    if k > 0 {
        lemma_elapsed_faster_start(syms, k - 1, table, text_type, slow, fast, profile);
        if markers_in(syms, k - 1) == 0 {
            let top: int = base_unit_ns(text_type) as int * 100 * 1;
            lemma_div_is_ordered_by_denominator(top, slow.num as int, fast.num as int);
            assert(unit_ns(text_type, fast) == top / (fast.num as int));
            assert(unit_ns(text_type, slow) == top / (slow.num as int));
            let units: int = table.units_of(syms[k - 1]) as int;
            let uf: int = unit_ns(text_type, fast) as int;
            let us: int = unit_ns(text_type, slow) as int;
            assert(units * uf <= units * us) by (nonlinear_arith)
                requires
                    uf <= us,
                    units >= 0,
            ;
        }
    }
}

/// Duration of one tone unit at speed `s`, in nanoseconds.
pub fn unit_duration_ns(text_type: TextType, s: Speed) -> (r: u128)
    requires
        speed_valid(s),
    ensures
        r == unit_ns(text_type, s),
{
    let base: u128 = match text_type {
        TextType::Letters => 50_000_000,
        TextType::Digits => 34_000_000,
        TextType::Mixed => 42_000_000,
    };
    assert(base * 100 * (s.den as u128) <= 50_000_000 * 100 * 0xffff_ffff_ffff_ffffu128)
        by (nonlinear_arith)
        requires
            base <= 50_000_000,
            s.den <= 0xffff_ffff_ffff_ffffu64,
    ;
    (base * 100 * (s.den as u128)) / (s.num as u128)
}

/// Counts the speed markers in `syms`.
pub fn marker_count(syms: &Vec<Symbol>) -> (r: usize)
    ensures
        r == markers_in(syms@, syms@.len() as int),
{
    let mut r: usize = 0;
    let mut k: usize = 0;
    while k < syms.len()
        invariant
            k <= syms.len(),
            r == markers_in(syms@, k as int),
            r <= k,
        decreases syms.len() - k,
    {
        if syms[k] == Symbol::SpeedMarker {
            r = r + 1;
        }
        k = k + 1;
    }
    r
}

/// Walks a symbol sequence from the speed `start`, taking the next entry of
/// `profile` at each speed marker, and reports the duration of each symbol,
/// the total and the checkpoints at character and word gaps.
///
/// Fails with `ProfileTooShort` when the markers outnumber the profile,
/// else with `InvalidSpeed` when a speed it reads is not positive, else with
/// `Overflow` when the total exceeds `u64::MAX` nanoseconds.
pub fn compute_timing(
    syms: &Vec<Symbol>,
    table: &ActionTimingTable,
    text_type: TextType,
    start: Speed,
    profile: &Vec<Speed>,
) -> (r: Result<Timing, TimingError>)
    ensures
        r is Err <==> timing_error(syms@, *table, text_type, start, profile@) is Some,
        r matches Err(e) ==> timing_error(syms@, *table, text_type, start, profile@) == Some(e),
        r matches Ok(t) ==> {
            &&& t.total_ns == elapsed_ns(syms@, syms@.len() as int, *table, text_type, start, profile@)
            &&& t.symbol_ns@.len() == syms@.len()
            &&& forall|k: int|
                0 <= k < syms@.len() ==> t.symbol_ns@[k] == symbol_ns(
                    syms@,
                    k,
                    *table,
                    text_type,
                    start,
                    profile@,
                )
            &&& sum_of(t.symbol_ns@) == t.total_ns
            &&& t.checkpoints_ns@.len() == checkpoints_of(
                syms@,
                syms@.len() as int,
                *table,
                text_type,
                start,
                profile@,
            ).len()
            &&& forall|i: int|
                0 <= i < t.checkpoints_ns@.len() ==> t.checkpoints_ns@[i] == checkpoints_of(
                    syms@,
                    syms@.len() as int,
                    *table,
                    text_type,
                    start,
                    profile@,
                )[i]
        },
{
    let ghost n = syms@.len() as int;
    let markers = marker_count(syms);
    if markers > profile.len() {
        return Err(TimingError::ProfileTooShort);
    }
    if !(start.num > 0 && start.den > 0) {
        return Err(TimingError::InvalidSpeed);
    }
    let mut j: usize = 0;
    while j < markers
        invariant
            j <= markers,
            n == syms@.len(),
            speed_valid(start),
            markers == markers_in(syms@, n),
            markers <= profile@.len(),
            forall|i: int| 0 <= i < j ==> speed_valid(#[trigger] profile@[i]),
        decreases markers - j,
    {
        if !(profile[j].num > 0 && profile[j].den > 0) {
            return Err(TimingError::InvalidSpeed);
        }
        j = j + 1;
    }
    assert(speeds_valid(syms@, start, profile@));
    let mut durations: Vec<u64> = Vec::new();
    let mut checkpoints: Vec<u64> = vec![0];
    let mut total: u64 = 0;
    let mut unit: u128 = unit_duration_ns(text_type, start);
    let mut m: usize = 0;
    let mut k: usize = 0;
    assert(checkpoints@ =~= seq![0u64]);
    while k < syms.len()
        invariant
            n == syms@.len(),
            k <= n,
            markers == markers_in(syms@, n),
            markers <= profile@.len(),
            speeds_valid(syms@, start, profile@),
            m == markers_in(syms@, k as int),
            m <= markers,
            unit == unit_ns(text_type, speed_at(syms@, k as int, start, profile@)),
            total == elapsed_ns(syms@, k as int, *table, text_type, start, profile@),
            durations@.len() == k,
            forall|i: int|
                0 <= i < k ==> durations@[i] == symbol_ns(
                    syms@,
                    i,
                    *table,
                    text_type,
                    start,
                    profile@,
                ),
            sum_of(durations@) == total,
            checkpoints@.len() == checkpoints_of(
                syms@,
                k as int,
                *table,
                text_type,
                start,
                profile@,
            ).len(),
            forall|i: int|
                0 <= i < checkpoints@.len() ==> checkpoints@[i] == checkpoints_of(
                    syms@,
                    k as int,
                    *table,
                    text_type,
                    start,
                    profile@,
                )[i],
        decreases n - k,
    {
        let s = syms[k];
        let units = table.units(s);
        proof {
            lemma_elapsed_monotone(syms@, k + 1, n, *table, text_type, start, profile@);
        }
        if unit > 0xffff_ffff_ffff_ffffu128 && units > 0 {
            assert(units * unit >= unit) by (nonlinear_arith)
                requires
                    units >= 1,
                    unit >= 0,
            ;
            return Err(TimingError::Overflow);
        }
        assert(units * unit <= 0xffff_ffff_ffff_ffffu128 * 0xffff_ffff_ffff_ffffu128)
            by (nonlinear_arith)
            requires
                units <= 0xffff_ffff_ffff_ffffu64,
                unit <= 0xffff_ffff_ffff_ffffu128 || units == 0,
        ;
        let term: u128 = units as u128 * unit;
        if total as u128 + term > 0xffff_ffff_ffff_ffffu128 {
            return Err(TimingError::Overflow);
        }
        let d = term as u64;
        let ghost prev = durations@;
        durations.push(d);
        assert(durations@.drop_last() =~= prev);
        total = total + d;
        if s == Symbol::CharacterGap || s == Symbol::WordGap {
            checkpoints.push(total);
        }
        if s == Symbol::SpeedMarker {
            proof {
                lemma_markers_monotone(syms@, k + 1, n);
            }
            unit = unit_duration_ns(text_type, profile[m]);
            m = m + 1;
        }
        k = k + 1;
    }
    Ok(Timing { symbol_ns: durations, total_ns: total, checkpoints_ns: checkpoints })
}

} // verus!
