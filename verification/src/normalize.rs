//! Timestamp normalization for the columnar export path.
//!
//! Downstream consumers convert timestamps to a lower-precision numeric
//! representation, which can collapse two distinct but close timestamps into
//! one value. When uniqueness is requested, every emitted timestamp is forced
//! to exceed the previous one by at least a fixed minimum gap of 2 time
//! units, so the emitted sequence stays injective after such a conversion.

use vstd::prelude::*;

verus! {

/// One normalization step: the emitted timestamp is the input, bumped up to
/// `prev + 2` whenever the input comes too close to the previous output.
pub open spec fn norm_step(prev: int, ts: int) -> int {
    if ts >= prev + 2 {
        ts
    } else {
        prev + 2
    }
}

/// The normalizer state after feeding every element of `ts`, in order,
/// to a normalizer whose previous output was `prev`.
pub open spec fn norm_state(prev: int, ts: Seq<u64>) -> int
    decreases ts.len(),
{
    if ts.len() == 0 {
        prev
    } else {
        norm_step(norm_state(prev, ts.drop_last()), ts.last() as int)
    }
}

/// The sequence of outputs produced by feeding every element of `ts`, in
/// order, to a normalizer whose previous output was `prev`.
pub open spec fn norm_outputs(prev: int, ts: Seq<u64>) -> Seq<int>
    decreases ts.len(),
{
    if ts.len() == 0 {
        Seq::empty()
    } else {
        norm_outputs(prev, ts.drop_last()).push(
            norm_step(norm_state(prev, ts.drop_last()), ts.last() as int),
        )
    }
}

/// `ts` never decreases from one element to the next.
pub open spec fn non_decreasing(ts: Seq<u64>) -> bool {
    forall|i: int, j: int| 0 <= i <= j < ts.len() ==> ts[i] <= ts[j]
}

/// Running state of the uniqueness transform: the last emitted timestamp.
/// It starts at the minimum representable value and never moves backwards.
pub struct TimestampNormalizer {
    pub prev: u64,
}

impl TimestampNormalizer {
    pub fn new() -> (r: Self)
        ensures
            r.prev == 0,
    {
        TimestampNormalizer { prev: 0 }
    }

    /// Emit the next unique timestamp for the raw input `ts`.
    pub fn next(&mut self, ts: u64) -> (r: u64)
        requires
            old(self).prev + 2 <= u64::MAX,
        ensures
            r == norm_step(old(self).prev as int, ts as int),
            final(self).prev == r,
            r >= old(self).prev + 2,
            r >= ts,
            ts >= old(self).prev + 2 ==> r == ts,
    {
        let bumped = self.prev + 2;
        let out = if ts >= bumped {
            ts
        } else {
            bumped
        };
        self.prev = out;
        out
    }

    /// The transform as the export pipeline sees it: the uniqueness step when
    /// `unique` is set, the identity otherwise.
    pub fn apply(&mut self, ts: u64, unique: bool) -> (r: u64)
        requires
            unique ==> old(self).prev + 2 <= u64::MAX,
        ensures
            unique ==> r == norm_step(old(self).prev as int, ts as int) && final(self).prev == r,
            !unique ==> r == ts && final(self).prev == old(self).prev,
    {
        if unique {
            self.next(ts)
        } else {
            ts
        }
    }
}

/// The output at position `i` is one normalization step applied to the state
/// reached after the first `i` inputs.
proof fn lemma_norm_outputs_index(prev: int, ts: Seq<u64>, i: int)
    requires
        0 <= i < ts.len(),
    ensures
        norm_outputs(prev, ts).len() == ts.len(),
        norm_outputs(prev, ts)[i] == norm_step(norm_state(prev, ts.take(i)), ts[i] as int),
        norm_outputs(prev, ts)[i] == norm_state(prev, ts.take(i + 1)),
    decreases ts.len(),
{
    lemma_norm_outputs_len(prev, ts);
    if i == ts.len() - 1 {
        assert(ts.take(i) =~= ts.drop_last());
        assert(ts.take(i + 1) =~= ts);
    } else {
        lemma_norm_outputs_index(prev, ts.drop_last(), i);
        assert(ts.drop_last().take(i) =~= ts.take(i));
        assert(ts.drop_last().take(i + 1) =~= ts.take(i + 1));
        assert(ts.drop_last()[i] == ts[i]);
    }
}

/// The normalizer emits exactly one output per input.
pub proof fn lemma_norm_outputs_len(prev: int, ts: Seq<u64>)
    ensures
        norm_outputs(prev, ts).len() == ts.len(),
    decreases ts.len(),
{
    if ts.len() > 0 {
        lemma_norm_outputs_len(prev, ts.drop_last());
    }
}

/// Chaining consecutive gaps: the outputs grow by at least 2 per step.
proof fn lemma_gap_chain(s: Seq<int>, i: int, j: int)
    requires
        0 <= i < j < s.len(),
        forall|k: int| 0 <= k < s.len() - 1 ==> #[trigger] s[k] + 2 <= s[k + 1],
    ensures
        s[i] + 2 * (j - i) <= s[j],
    decreases j - i,
{
    if j > i + 1 {
        lemma_gap_chain(s, i, j - 1);
    }
}

/// Law: for every non-decreasing input sequence, the normalized output
/// sequence is strictly increasing, with consecutive differences of at least
/// the minimum gap of 2.
pub proof fn lemma_normalized_strictly_increasing(prev: int, ts: Seq<u64>)
    requires
        non_decreasing(ts),
    ensures
        norm_outputs(prev, ts).len() == ts.len(),
        forall|i: int|
            0 <= i < ts.len() - 1 ==> #[trigger] norm_outputs(prev, ts)[i] + 2 <= norm_outputs(
                prev,
                ts,
            )[i + 1],
        forall|i: int, j: int|
            0 <= i < j < ts.len() ==> #[trigger] norm_outputs(prev, ts)[i] < #[trigger] norm_outputs(
                prev,
                ts,
            )[j],
{
    let out = norm_outputs(prev, ts);
    lemma_norm_outputs_len(prev, ts);
    assert forall|i: int| 0 <= i < ts.len() - 1 implies #[trigger] out[i] + 2 <= out[i + 1] by {
        lemma_norm_outputs_index(prev, ts, i);
        lemma_norm_outputs_index(prev, ts, i + 1);
    }
    assert forall|i: int, j: int| 0 <= i < j < ts.len() implies #[trigger] out[i]
        < #[trigger] out[j] by {
        lemma_gap_chain(out, i, j);
    }
}

} // verus!
