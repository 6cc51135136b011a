//! The updater's work: one cycle assigns every monitor a freshly drawn
//! simulated value together with the cycle's Unix timestamp.

use vstd::prelude::*;
use crate::model::{MonitorData, MonitorResult, MonitorView};

verus! {

/// Lowest simulated value a cycle may assign (inclusive).
pub const VALUE_LOWER: i64 = 0;

/// Upper bound on the simulated values (exclusive).
pub const VALUE_UPPER: i64 = 100;

/// Relies on `rand::random_range`: returns a value drawn from the given
/// half-open range. The function panics on an empty range, which the
/// precondition rules out; nothing more than membership in the range is
/// promised of the draw.
#[verifier::external_body]
fn random_in_range(lo: i64, hi: i64) -> (r: i64)
    requires
        lo < hi,
    ensures
        lo <= r < hi,
{
    rand::random_range(lo..hi)
}

/// The descriptive fields of `b` are those of `a`.
pub open spec fn same_identity(a: MonitorView, b: MonitorView) -> bool {
    &&& b.monitor_id == a.monitor_id
    &&& b.name == a.name
    &&& b.script == a.script
    &&& b.monitor_type == a.monitor_type
    &&& b.code == a.code
}

/// The monitor carries a result assigned at time `now`, with a value in
/// the simulated range. Value and timestamp sit in one `MonitorResult`,
/// so they are always written together.
pub open spec fn fresh_result(m: MonitorView, now: int) -> bool {
    &&& m.result matches Some(r) && r.processed_at == now && VALUE_LOWER <= r.value < VALUE_UPPER
}

/// What one update cycle at time `now` does to the whole store.
pub open spec fn cycle_updates(before: Seq<MonitorView>, after: Seq<MonitorView>, now: int) -> bool {
    &&& after.len() == before.len()
    &&& forall|i: int|
        0 <= i < before.len() ==> same_identity(before[i], #[trigger] after[i]) && fresh_result(
            after[i],
            now,
        )
}

/// One update cycle: every monitor in the store receives a freshly drawn
/// simulated value and the cycle's timestamp `now`; no monitor is added,
/// dropped or otherwise changed.
pub fn update_cycle(data: &mut MonitorData, now: i64)
    ensures
        cycle_updates(old(data)@, final(data)@, now as int),
{
    let n: usize = data.monitors.len();
    let mut i: usize = 0;
    while i < n
        invariant
            i <= n,
            n == data.monitors@.len(),
            data@.len() == old(data)@.len() == n,
            forall|j: int|
                0 <= j < i ==> same_identity(old(data)@[j], #[trigger] data@[j]) && fresh_result(
                    data@[j],
                    now as int,
                ),
            forall|j: int| i <= j < n ==> #[trigger] data@[j] == old(data)@[j],
        decreases n - i,
    {
        let ghost pre = data@;
        let ghost prev = data.monitors@;
        let value: i64 = random_in_range(VALUE_LOWER, VALUE_UPPER);
        data.monitors[i].result = Some(MonitorResult { value, processed_at: now });
        proof {
            assert(data.monitors@ =~= prev.update(i as int, data.monitors@[i as int]));
            assert forall|j: int| 0 <= j < n && j != i implies #[trigger] data@[j] == pre[j] by {
                assert(data.monitors@[j] == prev[j]);
            }
            assert(same_identity(pre[i as int], data@[i as int]));
            assert(fresh_result(data@[i as int], now as int));
        }
        i += 1;
    }
}

/// The monitor carries a result whose timestamp is at least `observed`.
pub open spec fn result_at_least(m: MonitorView, observed: int) -> bool {
    &&& m.result matches Some(r) && r.processed_at >= observed
}

/// After any update cycle, every monitor's result carries a timestamp at
/// least as late as any timestamp observed before that cycle, provided
/// the clock did not run backwards between the observation and the cycle.
pub proof fn lemma_processed_at_monotone(
    before: Seq<MonitorView>,
    after: Seq<MonitorView>,
    now: int,
    observed: int,
)
    requires
        cycle_updates(before, after, now),
        observed <= now,
    ensures
        forall|i: int| 0 <= i < after.len() ==> result_at_least(#[trigger] after[i], observed),
{
    assert forall|i: int| 0 <= i < after.len() implies result_at_least(
        #[trigger] after[i],
        observed,
    ) by {
        assert(same_identity(before[i], after[i]) && fresh_result(after[i], now));
    }
}

/// Runs one update cycle per entry of `stamps`, in order. With no stamp
/// at all, the store is left exactly as it was — in particular, results
/// stay as they were initialized; with at least one, every monitor ends
/// with a result of the final cycle.
pub fn run_update_cycles(data: &mut MonitorData, stamps: &Vec<i64>)
    ensures
        final(data)@.len() == old(data)@.len(),
        forall|i: int|
            0 <= i < old(data)@.len() ==> same_identity(old(data)@[i], #[trigger] final(data)@[i]),
        stamps@.len() == 0 ==> final(data)@ == old(data)@,
        stamps@.len() > 0 ==> forall|i: int|
            0 <= i < final(data)@.len() ==> fresh_result(
                #[trigger] final(data)@[i],
                stamps@.last() as int,
            ),
{
    let n: usize = stamps.len();
    let mut k: usize = 0;
    while k < n
        invariant
            k <= n,
            n == stamps@.len(),
            data@.len() == old(data)@.len(),
            forall|i: int|
                0 <= i < old(data)@.len() ==> same_identity(
                    old(data)@[i],
                    #[trigger] data@[i],
                ),
            k == 0 ==> data@ == old(data)@,
            k > 0 ==> forall|i: int|
                0 <= i < data@.len() ==> fresh_result(#[trigger] data@[i], stamps@[k - 1] as int),
        decreases n - k,
    {
        update_cycle(data, stamps[k]);
        k += 1;
    }
}

} // verus!
