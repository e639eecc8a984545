use vstd::prelude::*;
use vstd::relations::{sorted_by, total_ordering};
use vstd::seq_lib::lemma_sorted_unique;

verus! {

broadcast use vstd::seq_lib::group_to_multiset_ensures, vstd::multiset::group_multiset_axioms;

/// The readings of quiet input are considered well separated from those of
/// speech when the gap between them exceeds this many loudness units.
pub const MIN_SEPARATION: u64 = 163_840;

pub open spec fn ascending() -> spec_fn(u64, u64) -> bool {
    |a: u64, b: u64| a <= b
}

/// The values in ascending order.
pub open spec fn sorted_seq(s: Seq<u64>) -> Seq<u64> {
    s.sort_by(ascending())
}

/// The nearest-rank index for `percent` of `n` values: `floor(percent * (n - 1) / 100)`,
/// clamped to the last index.
pub open spec fn rank_index(n: nat, percent: u64) -> int {
    let k = percent as int * (n as int - 1) / 100;
    if k > n as int - 1 {
        n as int - 1
    } else {
        k
    }
}

pub open spec fn percentile_spec(s: Seq<u64>, percent: u64) -> u64 {
    sorted_seq(s)[rank_index(s.len(), percent)]
}

proof fn lemma_ascending_total()
    ensures
        total_ordering(ascending()),
{
}

/// A sorted copy of the values.
pub fn sorted_copy(values: &Vec<u64>) -> (r: Vec<u64>)
    ensures
        r@ == sorted_seq(values@),
{
    let mut out: Vec<u64> = Vec::new();
    let n = values.len();
    let mut i: usize = 0;
    while i < n
        invariant
            n == values@.len(),
            0 <= i <= n,
            sorted_by(out@, ascending()),
            out@.to_multiset() == values@.subrange(0, i as int).to_multiset(),
        decreases n - i,
    {
        let v = values[i];
        // find the insertion point: after every element <= v
        let mut j: usize = out.len();
        while j > 0 && out[j - 1] > v
            invariant
                0 <= j <= out@.len(),
                forall|k: int| j <= k < out@.len() ==> out@[k] > v,
            decreases j,
        {
            j = j - 1;
        }
        proof {
            assert forall|k: int| 0 <= k < j implies out@[k] <= v by {
                if j > 0 {
                    assert(out@[j - 1] <= v);
                    if k < j - 1 {
                        assert((ascending())(out@[k], out@[j - 1]));
                    }
                }
            }
        }
        let ghost before = out@;
        out.insert(j, v);
        proof {
            assert(out@ =~= before.subrange(0, j as int).push(v) + before.subrange(j as int, before.len() as int));
            assert forall|a: int, b: int| 0 <= a < b < out@.len() implies #[trigger] (ascending())(out@[a], out@[b]) by {
                if a < j && b < j {
                    assert((ascending())(before[a], before[b]));
                } else if a < j && b > j {
                    assert(out@[b] == before[b - 1]);
                } else if a > j {
                    assert(out@[a] == before[a - 1]);
                    assert(out@[b] == before[b - 1]);
                    assert((ascending())(before[a - 1], before[b - 1]));
                }
            }
            vstd::seq_lib::lemma_multiset_commutative(before.subrange(0, j as int), before.subrange(j as int, before.len() as int));
            vstd::seq_lib::lemma_multiset_commutative(before.subrange(0, j as int).push(v), before.subrange(j as int, before.len() as int));
            assert(before =~= before.subrange(0, j as int) + before.subrange(j as int, before.len() as int));
            assert(before.subrange(0, j as int).push(v).to_multiset() =~= before.subrange(0, j as int).to_multiset().insert(v));
            assert(values@.subrange(0, i + 1) =~= values@.subrange(0, i as int).push(v));
        }
        i = i + 1;
    }
    proof {
        assert(values@.subrange(0, n as int) =~= values@);
        values@.lemma_sort_by_ensures(ascending());
        lemma_ascending_total();
        lemma_sorted_unique(out@, sorted_seq(values@), ascending());
    }
    out
}

/// Nearest-rank percentile: the value at index `floor(percent * (n - 1) / 100)`
/// (clamped to the last index) of the sorted values; `None` when there are none.
/// `percent` is in hundredths, so 50 is the median.
pub fn percentile(values: &Vec<u64>, percent: u64) -> (r: Option<u64>)
    ensures
        values@.len() == 0 ==> r is None,
        values@.len() > 0 ==> r == Some(percentile_spec(values@, percent)),
{
    let n = values.len();
    if n == 0 {
        return None;
    }
    let sorted = sorted_copy(values);
    proof {
        values@.lemma_sort_by_ensures(ascending());
        assert(sorted@.to_multiset().len() == sorted@.len());
        assert(values@.to_multiset().len() == values@.len());
        assert(sorted@.len() == n);
        assert(percent as int * (n as int - 1) <= 0xffff_ffff_ffff_ffff * 0xffff_ffff_ffff_ffff) by (nonlinear_arith)
            requires
                percent <= 0xffff_ffff_ffff_ffff,
                n as int - 1 <= 0xffff_ffff_ffff_ffff,
                n >= 1,
        ;
        assert(percent as int * (n as int - 1) >= 0) by (nonlinear_arith)
            requires
                n >= 1,
        ;
    }
    let k: u128 = (percent as u128) * ((n - 1) as u128) / 100;
    let idx: usize = if k > (n - 1) as u128 {
        n - 1
    } else {
        k as usize
    };
    Some(sorted[idx])
}

/// The percentile of a single value is that value, whatever the percent.
pub proof fn lemma_percentile_of_one(x: u64, percent: u64)
    ensures
        percentile_spec(seq![x], percent) == x,
{
    let s = seq![x];
    s.lemma_sort_by_ensures(ascending());
    lemma_ascending_total();
    assert(s.to_multiset().len() == 1);
    lemma_sorted_unique(s, sorted_seq(s), ascending());
    assert(rank_index(1, percent) == 0) by (nonlinear_arith);
}

/// Which percentile of the speech readings the advice compares with the silence.
pub const SPEECH_PERCENTILE: u64 = 10;

pub open spec fn sum_of(s: Seq<u64>) -> nat
    decreases s.len(),
{
    if s.len() == 0 {
        0
    } else {
        sum_of(s.drop_last()) + s.last() as nat
    }
}

pub open spec fn max_of(s: Seq<u64>) -> u64
    decreases s.len(),
{
    if s.len() == 0 {
        0
    } else if s.len() == 1 {
        s[0]
    } else {
        let m = max_of(s.drop_last());
        if s.last() > m {
            s.last()
        } else {
            m
        }
    }
}

pub open spec fn saturate(x: int) -> u64 {
    if x > u64::MAX {
        u64::MAX
    } else {
        x as u64
    }
}

/// A recommended silence threshold, from loudness readings of a quiet
/// interval and of a speech interval.
#[derive(Debug, Clone, Copy, PartialEq, Eq)]
pub struct ThresholdAdvice {
    pub avg_silence: u64,
    pub max_silence: u64,
    pub speech_p10: u64,
    /// Whether speech stands more than `MIN_SEPARATION` above the loudest silence.
    pub well_separated: bool,
    pub conservative: u64,
    pub balanced: u64,
    pub aggressive: u64,
}

/// Well separated: `max + gap * {2, 5, 8} / 10` for `gap = p10 - max`.
/// Otherwise a range around the midpoint `m` of the two: `m * 7 / 10`, `m`,
/// `m * 14 / 10` (saturating).
pub open spec fn advice_spec(silence: Seq<u64>, speech: Seq<u64>) -> ThresholdAdvice {
    let mx = max_of(silence);
    let p = percentile_spec(speech, SPEECH_PERCENTILE);
    let gap = p as int - mx as int;
    let separated = gap > MIN_SEPARATION as int;
    let mid = (mx as int + p as int) / 2;
    ThresholdAdvice {
        avg_silence: (sum_of(silence) / silence.len()) as u64,
        max_silence: mx,
        speech_p10: p,
        well_separated: separated,
        conservative: if separated { (mx + gap * 2 / 10) as u64 } else { (mid * 7 / 10) as u64 },
        balanced: if separated { (mx + gap / 2) as u64 } else { mid as u64 },
        aggressive: if separated { (mx + gap * 8 / 10) as u64 } else { saturate(mid * 14 / 10) },
    }
}

proof fn lemma_sum_bound(s: Seq<u64>)
    ensures
        sum_of(s) <= s.len() * u64::MAX,
    decreases s.len(),
{
    if s.len() > 0 {
        lemma_sum_bound(s.drop_last());
    }
}

proof fn lemma_max_is_max(s: Seq<u64>)
    ensures
        forall|i: int| 0 <= i < s.len() ==> #[trigger] s[i] <= max_of(s),
    decreases s.len(),
{
    if s.len() > 1 {
        lemma_max_is_max(s.drop_last());
        assert forall|i: int| 0 <= i < s.len() implies #[trigger] s[i] <= max_of(s) by {
            if i < s.len() - 1 {
                assert(s[i] == s.drop_last()[i]);
            }
        }
    }
}

/// Computes the advice; `None` when either set of readings is empty.
pub fn recommend_threshold(silence: &Vec<u64>, speech: &Vec<u64>) -> (r: Option<ThresholdAdvice>)
    ensures
        (silence@.len() == 0 || speech@.len() == 0) ==> r is None,
        (silence@.len() > 0 && speech@.len() > 0) ==> r == Some(advice_spec(silence@, speech@)),
{
    let n = silence.len();
    if n == 0 || speech.len() == 0 {
        return None;
    }
    let mut sum: u128 = 0;
    let mut mx: u64 = silence[0];
    let mut i: usize = 0;
    while i < n
        invariant
            n == silence@.len(),
            n > 0,
            0 <= i <= n,
            sum == sum_of(silence@.subrange(0, i as int)),
            sum <= i * u64::MAX,
            mx == if i == 0 { silence@[0] } else { max_of(silence@.subrange(0, i as int)) },
        decreases n - i,
    {
        let v = silence[i];
        proof {
            let next = silence@.subrange(0, i + 1);
            assert(next.drop_last() =~= silence@.subrange(0, i as int));
            assert(next.last() == v);
            if i == 0 {
                assert(next.len() == 1);
            }
        }
        sum = sum + v as u128;
        if i > 0 && v > mx {
            mx = v;
        }
        i = i + 1;
    }
    proof {
        assert(silence@.subrange(0, n as int) =~= silence@);
        assert(sum as int / n as int <= u64::MAX) by (nonlinear_arith)
            requires
                sum <= n * u64::MAX,
                n > 0,
        ;
    }
    let avg: u64 = (sum / n as u128) as u64;
    let p = match percentile(speech, SPEECH_PERCENTILE) {
        Some(p) => p,
        None => { return None; },
    };
    let advice = if p > mx && p - mx > MIN_SEPARATION {
        let gap: u64 = p - mx;
        ThresholdAdvice {
            avg_silence: avg,
            max_silence: mx,
            speech_p10: p,
            well_separated: true,
            conservative: mx + gap / 10 * 2 + (gap % 10) * 2 / 10,
            balanced: mx + gap / 2,
            aggressive: mx + gap / 10 * 8 + (gap % 10) * 8 / 10,
        }
    } else {
        let mid: u64 = ((mx as u128 + p as u128) / 2) as u64;
        let wide: u128 = (mid as u128) * 14 / 10;
        ThresholdAdvice {
            avg_silence: avg,
            max_silence: mx,
            speech_p10: p,
            well_separated: false,
            conservative: ((mid as u128) * 7 / 10) as u64,
            balanced: mid,
            aggressive: if wide > u64::MAX as u128 { u64::MAX } else { wide as u64 },
        }
    };
    proof {
        let gap = p as int - mx as int;
        if p > mx && p - mx > MIN_SEPARATION {
            assert(gap / 10 * 2 + (gap % 10) * 2 / 10 == gap * 2 / 10);
            assert(gap / 10 * 8 + (gap % 10) * 8 / 10 == gap * 8 / 10);
        }
    }
    Some(advice)
}

/// When the 10th-percentile speech reading stands at least two units above the
/// loudest silence, the balanced threshold lies strictly between the two.
pub proof fn lemma_balanced_between(silence: Seq<u64>, speech: Seq<u64>)
    requires
        silence.len() > 0,
        speech.len() > 0,
        percentile_spec(speech, SPEECH_PERCENTILE) >= max_of(silence) + 2,
    ensures
        max_of(silence) < advice_spec(silence, speech).balanced < percentile_spec(speech, SPEECH_PERCENTILE),
        forall|i: int| 0 <= i < silence.len() ==> #[trigger] silence[i] < advice_spec(silence, speech).balanced,
{
    lemma_max_is_max(silence);
}

/// The calibration procedure's readings: a quiet interval of `silence_ms`
/// followed by a speech interval of `speech_ms`, both measured from its start.
pub struct TuningSession {
    pub silence_ms: u64,
    pub speech_ms: u64,
    pub silence: Vec<u64>,
    pub speech: Vec<u64>,
}

impl TuningSession {
    pub fn new(silence_ms: u64, speech_ms: u64) -> (r: Self)
        ensures
            r.silence_ms == silence_ms,
            r.speech_ms == speech_ms,
            r.silence@.len() == 0,
            r.speech@.len() == 0,
    {
        TuningSession { silence_ms, speech_ms, silence: Vec::new(), speech: Vec::new() }
    }

    /// Files a reading taken `elapsed_ms` after the start under its interval
    /// (readings after both intervals are dropped); returns whether both
    /// intervals are over.
    pub fn record(&mut self, elapsed_ms: u64, level: u64) -> (done: bool)
        ensures
            final(self).silence_ms == old(self).silence_ms,
            final(self).speech_ms == old(self).speech_ms,
            elapsed_ms < old(self).silence_ms ==> {
                &&& final(self).silence@ == old(self).silence@.push(level)
                &&& final(self).speech@ == old(self).speech@
            },
            old(self).silence_ms <= elapsed_ms < old(self).silence_ms + old(self).speech_ms ==> {
                &&& final(self).speech@ == old(self).speech@.push(level)
                &&& final(self).silence@ == old(self).silence@
            },
            elapsed_ms >= old(self).silence_ms + old(self).speech_ms ==> {
                &&& final(self).silence@ == old(self).silence@
                &&& final(self).speech@ == old(self).speech@
            },
            done == (elapsed_ms >= old(self).silence_ms + old(self).speech_ms),
    {
        if elapsed_ms < self.silence_ms {
            self.silence.push(level);
            false
        } else if elapsed_ms - self.silence_ms < self.speech_ms {
            self.speech.push(level);
            false
        } else {
            true
        }
    }

    /// The advice from the readings so far.
    pub fn advice(&self) -> (r: Option<ThresholdAdvice>)
        ensures
            (self.silence@.len() == 0 || self.speech@.len() == 0) ==> r is None,
            (self.silence@.len() > 0 && self.speech@.len() > 0) ==> r == Some(
                advice_spec(self.silence@, self.speech@),
            ),
    {
        recommend_threshold(&self.silence, &self.speech)
    }
}

} // verus!
