//! The total order on schedule entries — lexicographic over (timestamp,
//! duration, priority, task, mode, kwargs) — and the descending sort that
//! keeps the most recent entry first.

use vstd::prelude::*;
use vstd::multiset::Multiset;
use crate::schedule::{LineView, ScdDuration, ScheduleLine, SchedulingMode, Timestamp};
use crate::text::{
    lemma_str_lt_asym, lemma_str_lt_total, lemma_str_lt_trans, lemma_toks_lt_total,
    lemma_toks_lt_trans, str_lt, str_lt_exec, toks_lt, toks_lt_exec,
};

verus! {

/// Timestamps compare lexicographically by year, month, day, hour, minute.
pub open spec fn ts_lt(a: Timestamp, b: Timestamp) -> bool {
    if a.date.year != b.date.year {
        a.date.year < b.date.year
    } else if a.date.month != b.date.month {
        a.date.month < b.date.month
    } else if a.date.day != b.date.day {
        a.date.day < b.date.day
    } else if a.time.hour != b.time.hour {
        a.time.hour < b.time.hour
    } else {
        a.time.minute < b.time.minute
    }
}

/// Durations compare with the open-ended duration first, then by minutes.
pub open spec fn dur_lt(a: ScdDuration, b: ScdDuration) -> bool {
    match (a, b) {
        (ScdDuration::Infinite, ScdDuration::Finite(_)) => true,
        (ScdDuration::Finite(x), ScdDuration::Finite(y)) => x < y,
        _ => false,
    }
}

/// Modes in declaration order.
pub open spec fn mode_rank(m: SchedulingMode) -> int {
    match m {
        SchedulingMode::Common => 0,
        SchedulingMode::Discretionary => 1,
        SchedulingMode::Special => 2,
    }
}

/// Strict total order on entries: lexicographic over (timestamp, duration,
/// priority, task, mode, kwargs).
pub open spec fn line_lt(a: LineView, b: LineView) -> bool {
    if a.timestamp != b.timestamp {
        ts_lt(a.timestamp, b.timestamp)
    } else if a.duration != b.duration {
        dur_lt(a.duration, b.duration)
    } else if a.priority != b.priority {
        a.priority < b.priority
    } else if a.experiment != b.experiment {
        str_lt(a.experiment, b.experiment)
    } else if a.scheduling_mode != b.scheduling_mode {
        mode_rank(a.scheduling_mode) < mode_rank(b.scheduling_mode)
    } else {
        toks_lt(a.kwargs, b.kwargs)
    }
}

/// Non-strict total order on entries.
pub open spec fn line_le(a: LineView, b: LineView) -> bool {
    line_lt(a, b) || a == b
}

/// An entry with the earlier timestamp comes first, whatever its other
/// fields.
pub proof fn lemma_order_by_timestamp(a: LineView, b: LineView)
    requires
        ts_lt(a.timestamp, b.timestamp),
    ensures
        line_lt(a, b),
{
}

pub proof fn lemma_line_lt_irrefl(a: LineView)
    ensures
        !line_lt(a, a),
{
    crate::text::lemma_str_lt_irrefl(a.experiment);
    crate::text::lemma_toks_lt_irrefl(a.kwargs);
}

pub proof fn lemma_line_le_total(a: LineView, b: LineView)
    ensures
        line_le(a, b) || line_le(b, a),
{
    if a.timestamp == b.timestamp && a.duration == b.duration && a.priority == b.priority {
        lemma_str_lt_total(a.experiment, b.experiment);
        if a.experiment == b.experiment && a.scheduling_mode == b.scheduling_mode {
            lemma_toks_lt_total(a.kwargs, b.kwargs);
            if a.kwargs == b.kwargs {
                assert(a == b);
            }
        }
    }
}

pub proof fn lemma_line_lt_trans(a: LineView, b: LineView, c: LineView)
    requires
        line_lt(a, b),
        line_lt(b, c),
    ensures
        line_lt(a, c),
{
    if a.timestamp == b.timestamp && b.timestamp == c.timestamp && a.duration == b.duration
        && b.duration == c.duration && a.priority == b.priority && b.priority == c.priority {
        if a.experiment == b.experiment && b.experiment == c.experiment {
            if a.scheduling_mode == b.scheduling_mode && b.scheduling_mode == c.scheduling_mode {
                lemma_toks_lt_trans(a.kwargs, b.kwargs, c.kwargs);
            }
        } else if a.experiment != b.experiment && b.experiment != c.experiment {
            lemma_str_lt_trans(a.experiment, b.experiment, c.experiment);
            if a.experiment == c.experiment {
                lemma_str_lt_asym(a.experiment, b.experiment);
            }
        }
    }
}

pub proof fn lemma_line_le_trans(a: LineView, b: LineView, c: LineView)
    requires
        line_le(a, b),
        line_le(b, c),
    ensures
        line_le(a, c),
{
    if line_lt(a, b) && line_lt(b, c) {
        lemma_line_lt_trans(a, b, c);
    }
}

/// Non-strict order is the complement of the reversed strict order.
pub proof fn lemma_line_le_not_lt(a: LineView, b: LineView)
    ensures
        line_le(a, b) <==> !line_lt(b, a),
{
    lemma_line_le_total(a, b);
    if line_lt(a, b) && line_lt(b, a) {
        lemma_line_lt_trans(a, b, a);
        lemma_line_lt_irrefl(a);
    }
    if a == b {
        lemma_line_lt_irrefl(a);
    }
}

impl ScheduleLine {
    /// Whether this entry comes strictly before `other` in the total
    /// order.
    pub fn lt(&self, other: &ScheduleLine) -> (r: bool)
        ensures
            r == line_lt(self@, other@),
    {
        if !(self.timestamp == other.timestamp) {
            let ta = self.timestamp;
            let tb = other.timestamp;
            if ta.date.year != tb.date.year {
                return ta.date.year < tb.date.year;
            }
            if ta.date.month != tb.date.month {
                return ta.date.month < tb.date.month;
            }
            if ta.date.day != tb.date.day {
                return ta.date.day < tb.date.day;
            }
            if ta.time.hour != tb.time.hour {
                return ta.time.hour < tb.time.hour;
            }
            return ta.time.minute < tb.time.minute;
        }
        if !(self.duration == other.duration) {
            return match (self.duration, other.duration) {
                (ScdDuration::Infinite, ScdDuration::Finite(_)) => true,
                (ScdDuration::Finite(x), ScdDuration::Finite(y)) => x < y,
                _ => false,
            };
        }
        if self.priority != other.priority {
            return self.priority < other.priority;
        }
        if !self.experiment.eq(&other.experiment) {
            return str_lt_exec(self.experiment.as_str(), other.experiment.as_str());
        }
        if !(self.scheduling_mode == other.scheduling_mode) {
            let ra: u8 = match self.scheduling_mode {
                SchedulingMode::Common => 0,
                SchedulingMode::Discretionary => 1,
                SchedulingMode::Special => 2,
            };
            let rb: u8 = match other.scheduling_mode {
                SchedulingMode::Common => 0,
                SchedulingMode::Discretionary => 1,
                SchedulingMode::Special => 2,
            };
            return ra < rb;
        }
        toks_lt_exec(&self.kwargs, &other.kwargs)
    }

    /// Whether this entry comes at or before `other` in the total order.
    pub fn le(&self, other: &ScheduleLine) -> (r: bool)
        ensures
            r == line_le(self@, other@),
    {
        proof {
            lemma_line_le_not_lt(self@, other@);
        }
        !other.lt(self)
    }
}

/// Whether the entries stand in descending order, most recent first.
pub open spec fn sorted_desc(s: Seq<ScheduleLine>) -> bool {
    forall|i: int, j: int| 0 <= i < j < s.len() ==> line_le(#[trigger] s[j]@, #[trigger] s[i]@)
}

/// Inserts an entry into a descending list, keeping it descending.
#[verifier::loop_isolation(false)]
fn insert_desc(out: &mut Vec<ScheduleLine>, x: ScheduleLine)
    requires
        sorted_desc(old(out)@),
    ensures
        sorted_desc(final(out)@),
        final(out)@.to_multiset() == old(out)@.to_multiset().insert(x),
        final(out)@.len() == old(out)@.len() + 1,
{
    broadcast use vstd::seq_lib::group_seq_properties;

    let mut i: usize = 0;
    let n = out.len();
    while i < n
        invariant
            0 <= i <= n,
            forall|j: int| 0 <= j < i ==> line_lt(x@, #[trigger] out@[j]@),
        decreases n - i,
    {
        if x.lt(&out[i]) {
            i = i + 1;
        } else {
            proof {
                lemma_line_le_not_lt(out@[i as int]@, x@);
            }
            break;
        }
    }
    proof {
        if i < n {
            lemma_line_le_not_lt(out@[i as int]@, x@);
        }
    }
    let ghost prev = out@;
    out.insert(i, x);
    proof {
        let s2 = out@;
        assert(s2 == prev.insert(i as int, x));
        // order: entries before `i` are strictly above x, entries after at most x
        assert forall|p: int, q: int| 0 <= p < q < s2.len() implies line_le(s2[q]@, s2[p]@) by {
            if q < i {
                assert(s2[p] == prev[p] && s2[q] == prev[q]);
            } else if p > i {
                assert(s2[p] == prev[p - 1] && s2[q] == prev[q - 1]);
            } else if q == i {
                assert(s2[q] == x && s2[p] == prev[p]);
            } else if p == i {
                assert(s2[p] == x && s2[q] == prev[q - 1]);
                assert(line_le(prev[i as int]@, x@));
                assert(line_le(prev[q - 1]@, prev[i as int]@));
                lemma_line_le_trans(prev[q - 1]@, prev[i as int]@, x@);
            } else {
                if q > i {
                    assert(s2[q] == prev[q - 1]);
                }
                if p < i {
                    assert(s2[p] == prev[p]);
                }
                assert(line_le(s2[q]@, s2[p]@)) by {
                    if p < i && q > i {
                        if i < prev.len() {
                            lemma_line_le_trans(prev[q - 1]@, prev[i as int]@, prev[p]@);
                        }
                    }
                }
            }
        }
        // multiset: removing the inserted slot restores the old sequence
        broadcast use vstd::seq_lib::group_to_multiset_ensures;

        assert(s2.remove(i as int) =~= prev);
        assert(s2.remove(i as int).to_multiset() =~= s2.to_multiset().remove(x));
        assert(s2[i as int] == x);
        assert(s2.to_multiset().count(x) > 0);
        assert(s2.to_multiset() =~= prev.to_multiset().insert(x));
    }
}

/// Sorts the entries into descending order — the most recent first, ties
/// broken by the remaining fields — keeping exactly the same entries.
#[verifier::loop_isolation(false)]
pub fn sort_descending(lines: &mut Vec<ScheduleLine>)
    ensures
        sorted_desc(final(lines)@),
        final(lines)@.to_multiset() == old(lines)@.to_multiset(),
        final(lines)@.len() == old(lines)@.len(),
{
    broadcast use vstd::seq_lib::group_to_multiset_ensures;

    let mut out: Vec<ScheduleLine> = Vec::new();
    while lines.len() > 0
        invariant
            sorted_desc(out@),
            out@.to_multiset().add(lines@.to_multiset()) == old(lines)@.to_multiset(),
            out@.len() + lines@.len() == old(lines)@.len(),
        decreases lines@.len(),
    {
        let ghost l_prev = lines@;
        let x = lines.remove(0);
        proof {
            assert(l_prev.remove(0).to_multiset() =~= l_prev.to_multiset().remove(x));
            assert(l_prev.to_multiset().count(x) > 0);
        }
        let ghost o_prev = out@;
        insert_desc(&mut out, x);
        proof {
            assert(out@.to_multiset().add(lines@.to_multiset()) =~= old(
                lines,
            )@.to_multiset()) by {
                assert(out@.to_multiset() == o_prev.to_multiset().insert(x));
                assert(lines@.to_multiset() == l_prev.to_multiset().remove(x));
                assert(o_prev.to_multiset().add(l_prev.to_multiset()) == old(
                    lines,
                )@.to_multiset());
            }
        }
    }
    proof {
        assert(lines@.to_multiset() =~= Multiset::<ScheduleLine>::empty());
        assert(out@.to_multiset() =~= old(lines)@.to_multiset());
    }
    *lines = out;
}

} // verus!
