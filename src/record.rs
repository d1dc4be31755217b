//! Lines of a recording file: `<pitch> <duration_ms> <delay_ms>`, fields
//! separated by single spaces, numbers in decimal.
use vstd::prelude::*;
use vstd::slice::slice_subrange;
use vstd::slice::slice_to_vec;

use crate::playback::PlaybackRecord;

verus! {

pub const SPACE: u8 = 32;

pub open spec fn is_decimal(s: Seq<u8>) -> bool {
    s.len() > 0 && forall|i: int| 0 <= i < s.len() ==> 48 <= #[trigger] s[i] <= 57
}

pub open spec fn decimal_value(s: Seq<u8>) -> nat
    decreases s.len(),
{
    if s.len() == 0 {
        0
    } else {
        decimal_value(s.drop_last()) * 10 + (s.last() - 48) as nat
    }
}

/// The number that `s` spells, if it is decimal digits only and fits a `u64`.
pub open spec fn spec_parse_decimal(s: Seq<u8>) -> Option<u64> {
    if is_decimal(s) && decimal_value(s) <= u64::MAX {
        Some(decimal_value(s) as u64)
    } else {
        None
    }
}

/// The index of the first space of `s`, or its length if there is none.
pub open spec fn first_space(s: Seq<u8>) -> nat
    decreases s.len(),
{
    if s.len() == 0 {
        0
    } else if s[0] == SPACE {
        0
    } else {
        1 + first_space(s.drop_first())
    }
}

pub struct RecordView {
    pub pitch: Seq<u8>,
    pub duration_ms: u64,
    pub delay_ms: u64,
}

/// The record a line holds: a non-empty pitch up to the first space, the
/// duration up to the next space, and the delay in the rest.
pub open spec fn spec_parse_record(line: Seq<u8>) -> Option<RecordView> {
    let i = first_space(line) as int;
    if i == 0 || i >= line.len() {
        None
    } else {
        let rest = line.subrange(i + 1, line.len() as int);
        let j = first_space(rest) as int;
        if j >= rest.len() {
            None
        } else {
            match (
                spec_parse_decimal(rest.subrange(0, j)),
                spec_parse_decimal(rest.subrange(j + 1, rest.len() as int)),
            ) {
                (Some(d), Some(w)) => Some(
                    RecordView { pitch: line.subrange(0, i), duration_ms: d, delay_ms: w },
                ),
                _ => None,
            }
        }
    }
}

proof fn lemma_prefix_value_grows(s: Seq<u8>, i: int)
    requires
        0 <= i <= s.len(),
        forall|k: int| 0 <= k < s.len() ==> 48 <= #[trigger] s[k] <= 57,
    ensures
        decimal_value(s.take(i)) <= decimal_value(s),
    decreases s.len() - i,
{
    if i < s.len() {
        lemma_prefix_value_grows(s, i + 1);
        assert(s.take(i + 1).drop_last() =~= s.take(i));
        assert(s.take(i + 1).last() == s[i]);
    } else {
        assert(s.take(i) =~= s);
    }
}

proof fn lemma_first_space(s: Seq<u8>, r: int)
    requires
        0 <= r <= s.len(),
        forall|k: int| 0 <= k < r ==> s[k] != SPACE,
        r < s.len() ==> s[r] == SPACE,
    ensures
        first_space(s) == r,
    decreases r,
{
    if r > 0 {
        lemma_first_space(s.drop_first(), r - 1);
    }
}

/// The decimal number `s` spells, if it fits a `u64`.
pub fn parse_decimal(s: &[u8]) -> (r: Option<u64>)
    ensures
        r == spec_parse_decimal(s@),
{
    if s.len() == 0 {
        return None;
    }
    let mut acc: u64 = 0;
    let mut i: usize = 0;
    while i < s.len()
        invariant
            0 <= i <= s@.len(),
            acc == decimal_value(s@.take(i as int)),
            forall|k: int| 0 <= k < i ==> 48 <= #[trigger] s@[k] <= 57,
        decreases s@.len() - i,
    {
        let b = s[i];
        if b < 48 || b > 57 {
            return None;
        }
        let d = (b - 48) as u64;
        assert(s@.take(i + 1).drop_last() =~= s@.take(i as int));
        assert(s@.take(i + 1).last() == b);
        if acc > (u64::MAX - d) / 10 {
            proof {
                assert(acc * 10 + d > u64::MAX) by (nonlinear_arith)
                    requires
                        acc > (u64::MAX - d) / 10,
                        d <= 9,
                ;
                if is_decimal(s@) {
                    lemma_prefix_value_grows(s@, i + 1);
                }
            }
            return None;
        }
        assert(acc * 10 + d <= u64::MAX) by (nonlinear_arith)
            requires
                acc <= (u64::MAX - d) / 10,
                d <= 9,
        ;
        acc = acc * 10 + d;
        i = i + 1;
    }
    assert(s@.take(i as int) =~= s@);
    Some(acc)
}

fn find_space(s: &[u8]) -> (r: usize)
    ensures
        r == first_space(s@),
        r <= s@.len(),
{
    let mut i: usize = 0;
    while i < s.len()
        invariant
            0 <= i <= s@.len(),
            forall|k: int| 0 <= k < i ==> s@[k] != SPACE,
        decreases s@.len() - i,
    {
        if s[i] == SPACE {
            proof {
                lemma_first_space(s@, i as int);
            }
            return i;
        }
        i = i + 1;
    }
    proof {
        lemma_first_space(s@, i as int);
    }
    i
}

/// The record one line of a recording holds, if it is well-formed.
pub fn parse_record(line: &[u8]) -> (r: Option<PlaybackRecord>)
    ensures
        match spec_parse_record(line@) {
            Some(v) => r is Some && r->Some_0.pitch@ == v.pitch && r->Some_0.duration_ms
                == v.duration_ms && r->Some_0.delay_ms == v.delay_ms,
            None => r is None,
        },
{
    let n = line.len();
    let i = find_space(line);
    if i == 0 || i >= n {
        return None;
    }
    let rest = slice_subrange(line, i + 1, n);
    let j = find_space(rest);
    if j >= rest.len() {
        return None;
    }
    let duration = parse_decimal(slice_subrange(rest, 0, j));
    let delay = parse_decimal(slice_subrange(rest, j + 1, rest.len()));
    match (duration, delay) {
        (Some(duration_ms), Some(delay_ms)) => {
            let pitch = slice_to_vec(slice_subrange(line, 0, i));
            Some(PlaybackRecord { pitch, duration_ms, delay_ms })
        },
        _ => None,
    }
}

} // verus!
