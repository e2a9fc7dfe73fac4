//! Rolling CPU history and its compact glyph encoding.
//!
//! A history is a fixed-length queue of recent utilisation readings, each in
//! hundredths of a percent. Every reading falls into one of five intensity
//! levels, and two neighbouring readings share one glyph.

use std::collections::VecDeque;
use vstd::prelude::*;
use vstd::string::*;

verus! {

/// Number of readings a process history holds.
pub const HISTORY_LEN: usize = 10;

/// Readings below this bound (0.1 %) count as idle.
pub const LOW_BOUND: u64 = 10;

/// Readings below this bound (20 %) are at the first level.
pub const MODERATE_BOUND: u64 = 2000;

/// Readings below this bound (50 %) are at the second level.
pub const BUSY_BOUND: u64 = 5000;

/// Readings below this bound (70 %) are at the third level.
pub const HEAVY_BOUND: u64 = 7000;

/// The largest valid reading (100 %).
pub const FULL_LOAD: u64 = 10000;

/// The intensity level of a reading: 0 for idle up to 4 for heavy load.
/// A reading above 100 % is invalid and counts as idle.
pub open spec fn points(cpu: u64) -> u8 {
    if cpu < LOW_BOUND {
        0
    } else if cpu < MODERATE_BOUND {
        1
    } else if cpu < BUSY_BOUND {
        2
    } else if cpu < HEAVY_BOUND {
        3
    } else if cpu <= FULL_LOAD {
        4
    } else {
        0
    }
}

/// The glyphs, one per pair of levels: entry `5 * left + right` shows `left`
/// in its left column and `right` in its right column.
pub open spec fn glyph_table() -> Seq<char> {
    " ⢀⢠⢰⢸⡀⣀⣠⣰⣸⡄⣄⣤⣴⣼⡆⣆⣦⣶⣾⡇⣇⣧⣷⣿"@
}

/// The glyph for a pair of levels.
pub open spec fn glyph(left: u8, right: u8) -> char
    recommends
        left < 5,
        right < 5,
{
    glyph_table()[5 * left + right]
}

/// The glyph of column `k` of a history: readings `2k` and `2k + 1`. A
/// trailing reading without a partner is shown beside an idle right column.
pub open spec fn column(cpus: Seq<u64>, k: int) -> char
    recommends
        0 <= 2 * k < cpus.len(),
{
    glyph(
        points(cpus[2 * k]),
        if 2 * k + 1 < cpus.len() {
            points(cpus[2 * k + 1])
        } else {
            0
        },
    )
}

/// The glyph encoding of a history: one glyph per pair of readings.
pub open spec fn graph(cpus: Seq<u64>) -> Seq<char> {
    Seq::new(((cpus.len() + 1) / 2) as nat, |k: int| column(cpus, k))
}

/// A history after one more reading: the reading joins at the back and the
/// oldest one leaves at the front.
pub open spec fn pushed(history: Seq<u64>, sample: u64) -> Seq<u64> {
    history.push(sample).drop_first()
}

/// A history after a run of readings, pushed in order.
pub open spec fn pushed_all(history: Seq<u64>, samples: Seq<u64>) -> Seq<u64>
    decreases samples.len(),
{
    if samples.len() == 0 {
        history
    } else {
        pushed_all(pushed(history, samples[0]), samples.drop_first())
    }
}

/// Computes the intensity level of a reading.
pub fn get_points(cpu: u64) -> (level: u8)
    ensures
        level == points(cpu),
        level < 5,
{
    if cpu < LOW_BOUND {
        0
    } else if cpu < MODERATE_BOUND {
        1
    } else if cpu < BUSY_BOUND {
        2
    } else if cpu < HEAVY_BOUND {
        3
    } else if cpu <= FULL_LOAD {
        4
    } else {
        0
    }
}

/// The glyph for a pair of levels, as a one-character string.
pub fn glyph_str(left: u8, right: u8) -> (s: &'static str)
    requires
        left < 5,
        right < 5,
    ensures
        s@ == seq![glyph(left, right)],
{
    proof {
        reveal_strlit(" ⢀⢠⢰⢸⡀⣀⣠⣰⣸⡄⣄⣤⣴⣼⡆⣆⣦⣶⣾⡇⣇⣧⣷⣿");
    }
    let at: usize = 5 * (left as usize) + (right as usize);
    let s = " ⢀⢠⢰⢸⡀⣀⣠⣰⣸⡄⣄⣤⣴⣼⡆⣆⣦⣶⣾⡇⣇⣧⣷⣿".substring_char(at, at + 1);
    assert(s@ =~= seq![glyph(left, right)]);
    s
}

/// Encodes a history as glyphs, two readings per glyph.
pub fn get_cpu_graph(cpus: &VecDeque<u64>) -> (text: String)
    ensures
        text@ == graph(cpus@),
{
    let mut text = String::new();
    let n: usize = cpus.len();
    let columns: usize = n / 2 + n % 2;
    let mut k: usize = 0;
    while k < columns
        invariant
            n == cpus@.len(),
            columns == (n + 1) / 2,
            k <= columns,
            text@.len() == k,
            forall|j: int| 0 <= j < k ==> text@[j] == column(cpus@, j),
        decreases columns - k,
    {
        let left = get_points(cpus[2 * k]);
        let right = if 2 * k + 1 < n {
            get_points(cpus[2 * k + 1])
        } else {
            0
        };
        text.append(glyph_str(left, right));
        k = k + 1;
    }
    assert(text@ =~= graph(cpus@));
    text
}

/// Pushes one reading into a history and evicts the oldest, so that the
/// length stays what it was.
pub fn push_sample(cpus: &mut VecDeque<u64>, sample: u64)
    ensures
        final(cpus)@ == pushed(old(cpus)@, sample),
{
    cpus.push_back(sample);
    let _ = cpus.pop_front();
    assert(cpus@ =~= pushed(old(cpus)@, sample));
}

/// A history of `HISTORY_LEN` idle readings.
pub fn empty_history() -> (cpus: VecDeque<u64>)
    ensures
        cpus@ == Seq::new(HISTORY_LEN as nat, |i: int| 0u64),
{
    let mut cpus: VecDeque<u64> = VecDeque::new();
    let mut i: usize = 0;
    while i < HISTORY_LEN
        invariant
            i <= HISTORY_LEN,
            cpus@ =~= Seq::new(i as nat, |k: int| 0u64),
        decreases HISTORY_LEN - i,
    {
        cpus.push_back(0);
        i = i + 1;
    }
    cpus
}

/// Every reading has a level, and among valid readings a larger one never
/// has a smaller level.
pub proof fn lemma_points_monotonic(low: u64, high: u64)
    requires
        low <= high <= FULL_LOAD,
    ensures
        points(low) <= points(high) < 5,
{
}

/// A bounded history holds the most recent readings: after any run of
/// pushes it has the length it started with, and its contents are the tail
/// of the old contents followed by the pushed readings. Once at least as
/// many readings were pushed as the history holds, it consists of exactly
/// the newest of them, in the order they came.
pub proof fn lemma_history_keeps_most_recent(history: Seq<u64>, samples: Seq<u64>)
    ensures
        pushed_all(history, samples).len() == history.len(),
        pushed_all(history, samples) == (history + samples).subrange(
            samples.len() as int,
            (samples.len() + history.len()) as int,
        ),
        samples.len() >= history.len() ==> pushed_all(history, samples) == samples.subrange(
            samples.len() - history.len(),
            samples.len() as int,
        ),
    decreases samples.len(),
{
    if samples.len() == 0 {
        assert(pushed_all(history, samples) =~= (history + samples).subrange(
            0,
            history.len() as int,
        ));
    } else {
        let next = pushed(history, samples[0]);
        let rest = samples.drop_first();
        lemma_history_keeps_most_recent(next, rest);
        assert(pushed_all(history, samples) =~= (history + samples).subrange(
            samples.len() as int,
            (samples.len() + history.len()) as int,
        ));
    }
    if samples.len() >= history.len() {
        assert((history + samples).subrange(samples.len() as int, (samples.len() + history.len()) as int)
            =~= samples.subrange(samples.len() - history.len(), samples.len() as int));
    }
}

} // verus!
