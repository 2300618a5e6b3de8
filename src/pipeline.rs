//! The per-tick coordinator: moves every pending reading into the raw
//! series, converts it, and moves the result into the derived series.
use vstd::prelude::*;

use crate::measurements::{keep_last, lemma_keep_last_push, Measurements};

verus! {

/// Processes the readings drained from the ingestion channel this tick, in
/// arrival order. Each reading is appended to `raw`, converted by `convert`,
/// and the derived sample appended to `derived` right after it. Returns, per
/// reading and in the same order, the derived sample with what `convert`
/// produced beside it (the result event to publish and persist).
pub fn process_readings<T: Copy, D: Copy, O, F: Fn(T) -> (D, O)>(
    raw: &mut Measurements<T>,
    derived: &mut Measurements<D>,
    readings: &Vec<T>,
    convert: F,
) -> (outs: Vec<(D, O)>)
    requires
        old(raw).wf(),
        old(derived).wf(),
        forall|x: T| #[trigger] convert.requires((x,)),
    ensures
        outs@.len() == readings@.len(),
        forall|i: int|
            0 <= i < readings@.len() ==> #[trigger] convert.ensures((readings@[i],), outs@[i]),
        final(raw).values@ == keep_last(
            old(raw).values@ + readings@,
            old(raw).max_data_points as nat,
        ),
        final(raw).max_data_points == old(raw).max_data_points,
        final(derived).values@ == keep_last(
            old(derived).values@ + outs@.map_values(|p: (D, O)| p.0),
            old(derived).max_data_points as nat,
        ),
        final(derived).max_data_points == old(derived).max_data_points,
        final(raw).wf(),
        final(derived).wf(),
{
    let mut outs: Vec<(D, O)> = Vec::new();
    let mut i: usize = 0;
    proof {
        assert(old(raw).values@ + readings@.take(0) =~= old(raw).values@);
        assert(old(derived).values@ + outs@.map_values(|p: (D, O)| p.0) =~= old(derived).values@);
    }
    while i < readings.len()
        invariant
            forall|x: T| #[trigger] convert.requires((x,)),
            i <= readings@.len(),
            outs@.len() == i,
            forall|j: int| 0 <= j < i ==> #[trigger] convert.ensures((readings@[j],), outs@[j]),
            raw.max_data_points == old(raw).max_data_points,
            raw.wf(),
            derived.wf(),
            derived.max_data_points == old(derived).max_data_points,
            raw.values@ == keep_last(
                old(raw).values@ + readings@.take(i as int),
                raw.max_data_points as nat,
            ),
            derived.values@ == keep_last(
                old(derived).values@ + outs@.map_values(|p: (D, O)| p.0),
                derived.max_data_points as nat,
            ),
        decreases readings@.len() - i,
    {
        let x = readings[i];
        let ghost raw_before = old(raw).values@ + readings@.take(i as int);
        let ghost derived_before = old(derived).values@ + outs@.map_values(|p: (D, O)| p.0);
        raw.add_value(x);
        let (d, o) = convert(x);
        derived.add_value(d);
        outs.push((d, o));
        proof {
            lemma_keep_last_push(raw_before, x, raw.max_data_points as nat);
            assert(raw_before.push(x) =~= old(raw).values@ + readings@.take(i + 1));
            lemma_keep_last_push(derived_before, d, derived.max_data_points as nat);
            assert(derived_before.push(d) =~= old(derived).values@ + outs@.map_values(
                |p: (D, O)| p.0,
            ));
        }
        i += 1;
    }
    proof {
        assert(readings@.take(readings@.len() as int) =~= readings@);
    }
    outs
}

} // verus!
