//! Reconciliation of the alarm store against a desired list of task alarms.
//!
//! The caller periodically declares the full set of alarms it wants, one
//! entry per task. The engine converges the stored collection to that
//! declaration while protecting decisions the declaration cannot know about:
//! a snooze or a dismissal of an unchanged schedule survives the sync. Task
//! alarms of workspaces absent from the declaration are left alone, so a
//! partial sync for one workspace never disturbs another.

use vstd::prelude::*;
use crate::alarm::{AlarmManagerState, AlarmRecord, AlarmRecordView, AlarmStatus, TaskAlarmInput,
    TaskAlarmInputView, alarm_id_chars, build_alarm_from_input, build_alarm_view, has_alarm_id,
    id_consistent, ids_unique, input_arith_ok, is_task_alarm_id, lemma_alarm_id_injective,
    lemma_id_chars_is_task, rec_views};
use crate::seqtools::{lemma_filter_all_false, lemma_filter_all_true, lemma_filter_compose,
    lemma_filter_ext, lemma_filter_push};
use crate::strutil::str_eq;

verus! {

/// Some input of this sync belongs to the workspace.
pub open spec fn inputs_have_workspace(inputs: Seq<TaskAlarmInputView>, ws: i64) -> bool {
    exists|k: int| 0 <= k < inputs.len() && (#[trigger] inputs[k]).workspace_id == ws
}

/// The identity the input normalizes to.
pub open spec fn input_alarm_id(input: TaskAlarmInputView) -> Seq<char> {
    alarm_id_chars(input.workspace_id, input.task_id, input.start_at_unix)
}

/// Some input of this sync normalizes to the identity.
pub open spec fn inputs_have_id(inputs: Seq<TaskAlarmInputView>, id: Seq<char>) -> bool {
    exists|k: int| 0 <= k < inputs.len() && input_alarm_id(#[trigger] inputs[k]) == id
}

/// An existing record survives the pruning step when it is not a task alarm,
/// or its workspace is not part of this sync, or its identity is among the
/// incoming ones (so it is replaced rather than dropped).
pub open spec fn retained_on_sync(r: AlarmRecordView, inputs: Seq<TaskAlarmInputView>) -> bool {
    ||| !is_task_alarm_id(r.alarm_id)
    ||| !inputs_have_workspace(inputs, r.workspace_id)
    ||| inputs_have_id(inputs, r.alarm_id)
}

/// The first record with the given identity, if any.
pub open spec fn find_by_id(alarms: Seq<AlarmRecordView>, id: Seq<char>) -> Option<AlarmRecordView>
    decreases alarms.len(),
{
    if alarms.len() == 0 {
        None
    } else if alarms[0].alarm_id == id {
        Some(alarms[0])
    } else {
        find_by_id(alarms.drop_first(), id)
    }
}

/// A snooze or a dismissal is a user decision the declaration cannot know
/// about; those statuses are carried forward through a re-sync of an
/// unchanged schedule.
pub open spec fn carries_user_state(status: AlarmStatus) -> bool {
    status is Snoozed || status is Dismissed
}

/// The record one input merges to: the freshly built candidate, except that
/// when a record with the same identity and an unchanged start instant
/// already exists, its creation instant and last firing are kept, and its
/// status and next trigger are kept too if the user had snoozed or dismissed
/// it. Title, reminder and the computed trigger instant always come from the
/// declaration; note that for a snoozed record the carried next trigger wins
/// over a trigger recomputed from a changed reminder.
pub open spec fn merge_candidate(
    olds: Seq<AlarmRecordView>,
    input: TaskAlarmInputView,
    now: i64,
) -> AlarmRecordView {
    let fresh = build_alarm_view(input, now);
    match find_by_id(olds, fresh.alarm_id) {
        None => fresh,
        Some(existing) => {
            if existing.start_at_unix == input.start_at_unix {
                let keep_user = carries_user_state(existing.status);
                AlarmRecordView {
                    alarm_id: fresh.alarm_id,
                    task_id: fresh.task_id,
                    workspace_id: fresh.workspace_id,
                    title: fresh.title,
                    start_at_unix: fresh.start_at_unix,
                    trigger_at_unix: fresh.trigger_at_unix,
                    next_trigger_at_unix: if keep_user {
                        existing.next_trigger_at_unix
                    } else {
                        fresh.next_trigger_at_unix
                    },
                    status: if keep_user {
                        existing.status
                    } else {
                        fresh.status
                    },
                    is_enabled: fresh.is_enabled,
                    reminder_minutes_before: fresh.reminder_minutes_before,
                    last_triggered_at_unix: existing.last_triggered_at_unix,
                    created_at_unix: existing.created_at_unix,
                    updated_at_unix: fresh.updated_at_unix,
                }
            } else {
                fresh
            }
        },
    }
}

/// Replace-or-append: every record with the candidate's identity goes, the
/// candidate comes in at the end.
pub open spec fn upsert(alarms: Seq<AlarmRecordView>, rec: AlarmRecordView) -> Seq<
    AlarmRecordView,
> {
    alarms.filter(|a: AlarmRecordView| a.alarm_id != rec.alarm_id).push(rec)
}

/// The store contents after pruning and after upserting the first `k` merged
/// candidates, in input order.
pub open spec fn sync_partial(
    olds: Seq<AlarmRecordView>,
    inputs: Seq<TaskAlarmInputView>,
    now: i64,
    k: int,
) -> Seq<AlarmRecordView>
    decreases k,
{
    if k <= 0 {
        olds.filter(|r: AlarmRecordView| retained_on_sync(r, inputs))
    } else {
        upsert(sync_partial(olds, inputs, now, k - 1), merge_candidate(olds, inputs[k - 1], now))
    }
}

/// The store contents after a whole sync.
pub open spec fn sync_result(
    olds: Seq<AlarmRecordView>,
    inputs: Seq<TaskAlarmInputView>,
    now: i64,
) -> Seq<AlarmRecordView> {
    sync_partial(olds, inputs, now, inputs.len() as int)
}

pub open spec fn input_views(s: Seq<TaskAlarmInput>) -> Seq<TaskAlarmInputView> {
    s.map_values(|i: TaskAlarmInput| i@)
}

/// Merging never changes the identity the input normalizes to.
pub proof fn lemma_merge_candidate_id(
    olds: Seq<AlarmRecordView>,
    input: TaskAlarmInputView,
    now: i64,
)
    ensures
        merge_candidate(olds, input, now).alarm_id == input_alarm_id(input),
        merge_candidate(olds, input, now).start_at_unix == input.start_at_unix,
        merge_candidate(olds, input, now).workspace_id == input.workspace_id,
        merge_candidate(olds, input, now).task_id == input.task_id,
{
}

proof fn lemma_find_by_id_from_index(alarms: Seq<AlarmRecordView>, id: Seq<char>, i: int)
    requires
        0 <= i < alarms.len(),
        alarms[i].alarm_id == id,
        forall|k: int| 0 <= k < i ==> alarms[k].alarm_id != id,
    ensures
        find_by_id(alarms, id) == Some(alarms[i]),
    decreases i,
{
    if i > 0 {
        lemma_find_by_id_from_index(alarms.drop_first(), id, i - 1);
    }
}

proof fn lemma_find_by_id_none(alarms: Seq<AlarmRecordView>, id: Seq<char>)
    requires
        forall|k: int| 0 <= k < alarms.len() ==> alarms[k].alarm_id != id,
    ensures
        find_by_id(alarms, id) is None,
    decreases alarms.len(),
{
    if alarms.len() > 0 {
        lemma_find_by_id_none(alarms.drop_first(), id);
    }
}

/// Some input of this sync targets the workspace.
fn inputs_contain_workspace(inputs: &Vec<TaskAlarmInput>, ws: i64) -> (r: bool)
    ensures
        r == inputs_have_workspace(input_views(inputs@), ws),
{
    let n = inputs.len();
    let mut i: usize = 0;
    while i < n
        invariant
            n == inputs@.len(),
            0 <= i <= n,
            forall|k: int| 0 <= k < i ==> (#[trigger] input_views(inputs@)[k]).workspace_id != ws,
        decreases n - i,
    {
        if inputs[i].workspace_id == ws {
            proof {
                assert(input_views(inputs@)[i as int].workspace_id == ws);
            }
            return true;
        }
        i += 1;
    }
    false
}

impl AlarmManagerState {
    /// Reconcile the store against the declared list of task alarms at
    /// instant `now` and return the number of alarms after the merge.
    ///
    /// Each input is normalized to a candidate record; task alarms of the
    /// declared workspaces that are no longer declared are dropped; a
    /// candidate whose identity and start instant match a stored record keeps
    /// that record's creation instant and last firing, and also its status
    /// and next trigger when the user had snoozed or dismissed it; finally
    /// every candidate replaces-or-appends into the collection.
    pub fn sync_task_alarms(&mut self, now: i64, inputs: &Vec<TaskAlarmInput>) -> (count: usize)
        requires
            forall|k: int| 0 <= k < inputs@.len() ==> input_arith_ok(#[trigger] inputs@[k]@),
        ensures
            final(self).notifications_enabled == old(self).notifications_enabled,
            final(self)@.alarms == sync_result(old(self)@.alarms, input_views(inputs@), now),
            count == final(self)@.alarms.len(),
            old(self)@.wf() ==> final(self)@.wf(),
    {
        let ghost olds = self@.alarms;
        let ghost ivs = input_views(inputs@);

        // Normalize each input and merge it against the pre-sync store.
        let mut merged: Vec<AlarmRecord> = Vec::new();
        let n_in = inputs.len();
        let mut k: usize = 0;
        while k < n_in
            invariant
                n_in == inputs@.len(),
                olds == self@.alarms,
                ivs == input_views(inputs@),
                forall|k2: int| 0 <= k2 < inputs@.len() ==> input_arith_ok(#[trigger] inputs@[k2]@),
                0 <= k <= n_in,
                merged@.len() == k,
                forall|j: int|
                    0 <= j < k ==> #[trigger] merged@[j]@ == merge_candidate(olds, ivs[j], now),
            decreases n_in - k,
        {
            let mut rec = build_alarm_from_input(&inputs[k], now);
            proof {
                assert(ivs[k as int] == inputs@[k as int]@);
                assert(rec@.alarm_id == input_alarm_id(ivs[k as int]));
            }
            match self.find_alarm_position(rec.alarm_id.as_str()) {
                Some(i) => {
                    proof {
                        lemma_find_by_id_from_index(olds, rec@.alarm_id, i as int);
                    }
                    let ex = &self.alarms[i];
                    if ex.start_at_unix == rec.start_at_unix {
                        let keep_user = match ex.status {
                            AlarmStatus::Snoozed => true,
                            AlarmStatus::Dismissed => true,
                            _ => false,
                        };
                        if keep_user {
                            rec.status = ex.status;
                            rec.next_trigger_at_unix = ex.next_trigger_at_unix;
                        }
                        rec.last_triggered_at_unix = ex.last_triggered_at_unix;
                        rec.created_at_unix = ex.created_at_unix;
                    }
                },
                None => {
                    proof {
                        lemma_find_by_id_none(olds, rec@.alarm_id);
                    }
                },
            }
            proof {
                assert(rec@ =~= merge_candidate(olds, ivs[k as int], now));
            }
            merged.push(rec);
            k += 1;
        }

        // Prune: keep existing records except task alarms of the declared
        // workspaces whose identity is no longer declared.
        let mut kept: Vec<AlarmRecord> = Vec::new();
        let n = self.alarms.len();
        let mut i: usize = 0;
        proof {
            assert(olds.subrange(0, 0) =~= Seq::<AlarmRecordView>::empty());
        }
        while i < n
            invariant
                n == self.alarms@.len(),
                olds == self@.alarms,
                ivs == input_views(inputs@),
                n_in == inputs@.len(),
                merged@.len() == n_in,
                forall|j: int|
                    0 <= j < n_in ==> #[trigger] merged@[j]@ == merge_candidate(olds, ivs[j], now),
                0 <= i <= n,
                rec_views(kept@) == olds.subrange(0, i as int).filter(
                    |r: AlarmRecordView| retained_on_sync(r, ivs),
                ),
            decreases n - i,
        {
            let r = &self.alarms[i];
            let keep = if !crate::alarm::id_has_task_prefix(r.alarm_id.as_str()) {
                true
            } else if !inputs_contain_workspace(inputs, r.workspace_id) {
                true
            } else {
                merged_has_id(&merged, &r.alarm_id, Ghost(olds), Ghost(ivs), Ghost(now))
            };
            proof {
                assert(olds[i as int] == self.alarms@[i as int]@);
                assert(keep == retained_on_sync(olds[i as int], ivs));
                assert(olds.subrange(0, i + 1 as int) =~= olds.subrange(0, i as int).push(
                    olds[i as int],
                ));
                lemma_filter_push(
                    olds.subrange(0, i as int),
                    olds[i as int],
                    |r: AlarmRecordView| retained_on_sync(r, ivs),
                );
            }
            if keep {
                kept.push(crate::alarm::duplicate_record(r));
                proof {
                    assert(rec_views(kept@) =~= rec_views(kept@.drop_last()).push(kept@.last()@));
                }
            }
            i += 1;
        }
        proof {
            assert(olds.subrange(0, n as int) =~= olds);
            assert(rec_views(kept@) == sync_partial(olds, ivs, now, 0));
        }

        // Upsert every merged candidate, in input order.
        let mut k2: usize = 0;
        while k2 < n_in
            invariant
                n_in == inputs@.len(),
                ivs == input_views(inputs@),
                merged@.len() == n_in,
                forall|j: int|
                    0 <= j < n_in ==> #[trigger] merged@[j]@ == merge_candidate(olds, ivs[j], now),
                0 <= k2 <= n_in,
                rec_views(kept@) == sync_partial(olds, ivs, now, k2 as int),
            decreases n_in - k2,
        {
            let ghost mc = merge_candidate(olds, ivs[k2 as int], now);
            let ghost kviews = rec_views(kept@);
            let mut next: Vec<AlarmRecord> = Vec::new();
            let nk = kept.len();
            let mut i2: usize = 0;
            proof {
                assert(kviews.subrange(0, 0) =~= Seq::<AlarmRecordView>::empty());
            }
            while i2 < nk
                invariant
                    nk == kept@.len(),
                    kviews == rec_views(kept@),
                    merged@.len() == n_in,
                    0 <= k2 < n_in,
                    merged@[k2 as int]@ == mc,
                    0 <= i2 <= nk,
                    rec_views(next@) == kviews.subrange(0, i2 as int).filter(
                        |a: AlarmRecordView| a.alarm_id != mc.alarm_id,
                    ),
                decreases nk - i2,
            {
                proof {
                    assert(kviews[i2 as int] == kept@[i2 as int]@);
                    assert(kviews.subrange(0, i2 + 1 as int) =~= kviews.subrange(
                        0,
                        i2 as int,
                    ).push(kviews[i2 as int]));
                    lemma_filter_push(
                        kviews.subrange(0, i2 as int),
                        kviews[i2 as int],
                        |a: AlarmRecordView| a.alarm_id != mc.alarm_id,
                    );
                }
                if !str_eq(kept[i2].alarm_id.as_str(), merged[k2].alarm_id.as_str()) {
                    next.push(crate::alarm::duplicate_record(&kept[i2]));
                    proof {
                        assert(rec_views(next@) =~= rec_views(next@.drop_last()).push(
                            next@.last()@,
                        ));
                    }
                }
                i2 += 1;
            }
            proof {
                assert(kviews.subrange(0, nk as int) =~= kviews);
            }
            next.push(crate::alarm::duplicate_record(&merged[k2]));
            kept = next;
            proof {
                assert(rec_views(kept@) =~= rec_views(kept@.drop_last()).push(kept@.last()@));
                assert(rec_views(kept@) =~= sync_partial(olds, ivs, now, k2 + 1 as int));
            }
            k2 += 1;
        }

        self.alarms = kept;
        proof {
            assert(final(self)@.alarms == sync_result(olds, ivs, now));
            if old(self)@.wf() {
                lemma_sync_preserves_wf(olds, ivs, now);
            }
        }
        self.alarms.len()
    }
}

/// Some merged candidate carries the identity.
fn merged_has_id(
    merged: &Vec<AlarmRecord>,
    id: &String,
    Ghost(olds): Ghost<Seq<AlarmRecordView>>,
    Ghost(ivs): Ghost<Seq<TaskAlarmInputView>>,
    Ghost(now): Ghost<i64>,
) -> (r: bool)
    requires
        forall|j: int|
            0 <= j < merged@.len() ==> #[trigger] merged@[j]@ == merge_candidate(olds, ivs[j], now),
        merged@.len() == ivs.len(),
    ensures
        r == inputs_have_id(ivs, id@),
{
    let n = merged.len();
    let mut i: usize = 0;
    while i < n
        invariant
            n == merged@.len(),
            n == ivs.len(),
            forall|j: int|
                0 <= j < merged@.len() ==> #[trigger] merged@[j]@ == merge_candidate(
                    olds,
                    ivs[j],
                    now,
                ),
            0 <= i <= n,
            forall|k: int| 0 <= k < i ==> input_alarm_id(#[trigger] ivs[k]) != id@,
        decreases n - i,
    {
        proof {
            lemma_merge_candidate_id(olds, ivs[i as int], now);
            assert(merged@[i as int]@.alarm_id == input_alarm_id(ivs[i as int]));
            assert(merged@[i as int]@.alarm_id == merged@[i as int].alarm_id@);
        }
        if str_eq(merged[i].alarm_id.as_str(), id.as_str()) {
            proof {
                assert(input_alarm_id(ivs[i as int]) == id@);
            }
            return true;
        } else {
            proof {
                assert(input_alarm_id(ivs[i as int]) != id@);
            }
        }
        i += 1;
    }
    false
}

} // verus!

verus! {

// ---------------------------------------------------------------------------
// Laws of reconciliation
// ---------------------------------------------------------------------------
/// The inputs normalize to pairwise distinct identities. A declaration with
/// one entry per task has this shape, since the identity determines the
/// task's coordinates.
pub open spec fn distinct_input_ids(inputs: Seq<TaskAlarmInputView>) -> bool {
    forall|j1: int, j2: int|
        0 <= j1 < j2 < inputs.len() ==> input_alarm_id(#[trigger] inputs[j1]) != input_alarm_id(
            #[trigger] inputs[j2],
        )
}

/// One merged candidate per input, in input order.
pub open spec fn merged_tail(
    olds: Seq<AlarmRecordView>,
    inputs: Seq<TaskAlarmInputView>,
    now: i64,
) -> Seq<AlarmRecordView> {
    inputs.map_values(|i: TaskAlarmInputView| merge_candidate(olds, i, now))
}

/// An old record survives the whole sync exactly when the pruning rule
/// retains it and no input claims its identity (in which case it would be
/// replaced).
pub open spec fn survives_sync(r: AlarmRecordView, inputs: Seq<TaskAlarmInputView>) -> bool {
    retained_on_sync(r, inputs) && !inputs_have_id(inputs, r.alarm_id)
}

proof fn lemma_sync_partial_shape(
    olds: Seq<AlarmRecordView>,
    ivs: Seq<TaskAlarmInputView>,
    now: i64,
    k: int,
)
    requires
        distinct_input_ids(ivs),
        0 <= k <= ivs.len(),
    ensures
        sync_partial(olds, ivs, now, k) == olds.filter(
            |r: AlarmRecordView|
                retained_on_sync(r, ivs) && !inputs_have_id(ivs.subrange(0, k), r.alarm_id),
        ) + merged_tail(olds, ivs.subrange(0, k), now),
    decreases k,
{
    let predk = |r: AlarmRecordView|
        retained_on_sync(r, ivs) && !inputs_have_id(ivs.subrange(0, k), r.alarm_id);
    if k == 0 {
        let pruned = |r: AlarmRecordView| retained_on_sync(r, ivs);
        assert(ivs.subrange(0, 0) =~= Seq::<TaskAlarmInputView>::empty());
        assert forall|i: int| 0 <= i < olds.len() implies pruned(#[trigger] olds[i]) == predk(
            olds[i],
        ) by {
            assert(!inputs_have_id(ivs.subrange(0, k), olds[i].alarm_id));
        }
        lemma_filter_ext(olds, pruned, predk);
        assert(merged_tail(olds, ivs.subrange(0, 0), now) =~= Seq::<AlarmRecordView>::empty());
        assert(sync_partial(olds, ivs, now, 0) =~= olds.filter(predk) + merged_tail(
            olds,
            ivs.subrange(0, k),
            now,
        ));
    } else {
        lemma_sync_partial_shape(olds, ivs, now, k - 1);
        let predp = |r: AlarmRecordView|
            retained_on_sync(r, ivs) && !inputs_have_id(ivs.subrange(0, k - 1), r.alarm_id);
        let mc = merge_candidate(olds, ivs[k - 1], now);
        lemma_merge_candidate_id(olds, ivs[k - 1], now);
        let ne = |a: AlarmRecordView| a.alarm_id != mc.alarm_id;
        let aa = olds.filter(predp);
        let mm = merged_tail(olds, ivs.subrange(0, k - 1), now);
        assert(sync_partial(olds, ivs, now, k - 1) == aa + mm);
        assert(sync_partial(olds, ivs, now, k) == (aa + mm).filter(ne).push(mc));
        Seq::<AlarmRecordView>::filter_distributes_over_add(aa, mm, ne);
        lemma_filter_compose(olds, predp, ne);
        assert forall|i: int|
            0 <= i < olds.len() implies ((predp(olds[i]) && ne(olds[i])) == predk(
            #[trigger] olds[i],
        )) by {
            let id = olds[i].alarm_id;
            if inputs_have_id(ivs.subrange(0, k), id) {
                let j = choose|j: int|
                    0 <= j < ivs.subrange(0, k).len() && input_alarm_id(
                        #[trigger] ivs.subrange(0, k)[j],
                    ) == id;
                if j < k - 1 {
                    assert(ivs.subrange(0, k - 1)[j] == ivs.subrange(0, k)[j]);
                    assert(inputs_have_id(ivs.subrange(0, k - 1), id));
                } else {
                    assert(ivs.subrange(0, k)[j] == ivs[k - 1]);
                }
            }
            if inputs_have_id(ivs.subrange(0, k - 1), id) {
                let j = choose|j: int|
                    0 <= j < ivs.subrange(0, k - 1).len() && input_alarm_id(
                        #[trigger] ivs.subrange(0, k - 1)[j],
                    ) == id;
                assert(ivs.subrange(0, k)[j] == ivs.subrange(0, k - 1)[j]);
                assert(input_alarm_id(ivs.subrange(0, k)[j]) == id);
                assert(inputs_have_id(ivs.subrange(0, k), id));
            }
            if id == input_alarm_id(ivs[k - 1]) {
                assert(ivs.subrange(0, k)[k - 1] == ivs[k - 1]);
                assert(input_alarm_id(ivs.subrange(0, k)[k - 1]) == id);
                assert(inputs_have_id(ivs.subrange(0, k), id));
            }
        }
        lemma_filter_ext(olds, |r: AlarmRecordView| predp(r) && ne(r), predk);
        assert forall|j: int| 0 <= j < mm.len() implies ne(#[trigger] mm[j]) by {
            assert(mm[j] == merge_candidate(olds, ivs.subrange(0, k - 1)[j], now));
            assert(ivs.subrange(0, k - 1)[j] == ivs[j]);
            lemma_merge_candidate_id(olds, ivs[j], now);
            assert(input_alarm_id(ivs[j]) != input_alarm_id(ivs[k - 1]));
        }
        lemma_filter_all_true(mm, ne);
        Seq::<AlarmRecordView>::push_distributes_over_add(olds.filter(predk), mm, mc);
        assert(ivs.subrange(0, k) =~= ivs.subrange(0, k - 1).push(ivs[k - 1]));
        ivs.subrange(0, k - 1).lemma_push_map_commute(
            |i: TaskAlarmInputView| merge_candidate(olds, i, now),
            ivs[k - 1],
        );
        assert(sync_partial(olds, ivs, now, k) =~= olds.filter(predk) + merged_tail(
            olds,
            ivs.subrange(0, k),
            now,
        ));
    }
}

/// The shape of a sync: the store ends up holding exactly the old records
/// that survive, in their old order, followed by one merged candidate per
/// input, in input order.
pub proof fn lemma_sync_result_shape(
    olds: Seq<AlarmRecordView>,
    inputs: Seq<TaskAlarmInputView>,
    now: i64,
)
    requires
        distinct_input_ids(inputs),
    ensures
        sync_result(olds, inputs, now) == olds.filter(
            |r: AlarmRecordView| survives_sync(r, inputs),
        ) + merged_tail(olds, inputs, now),
{
    let n = inputs.len() as int;
    lemma_sync_partial_shape(olds, inputs, now, n);
    assert(inputs.subrange(0, n) =~= inputs);
    let predn = |r: AlarmRecordView|
        retained_on_sync(r, inputs) && !inputs_have_id(inputs.subrange(0, n), r.alarm_id);
    let preds = |r: AlarmRecordView| survives_sync(r, inputs);
    assert forall|i: int| 0 <= i < olds.len() implies predn(#[trigger] olds[i]) == preds(
        olds[i],
    ) by {
        assert(inputs.subrange(0, n) == inputs);
    }
    lemma_filter_ext(olds, predn, preds);
}

/// Workspace isolation: a record that is not a task alarm, or whose
/// workspace this sync does not declare, comes through the sync untouched.
pub proof fn lemma_sync_workspace_isolation(
    olds: Seq<AlarmRecordView>,
    inputs: Seq<TaskAlarmInputView>,
    now: i64,
    i: int,
)
    requires
        forall|p: int| 0 <= p < olds.len() ==> id_consistent(#[trigger] olds[p]),
        distinct_input_ids(inputs),
        0 <= i < olds.len(),
        !is_task_alarm_id(olds[i].alarm_id) || !inputs_have_workspace(
            inputs,
            olds[i].workspace_id,
        ),
    ensures
        sync_result(olds, inputs, now).contains(olds[i]),
{
    broadcast use vstd::seq_lib::group_filter_ensures;

    lemma_sync_result_shape(olds, inputs, now);
    let id = olds[i].alarm_id;
    assert(!inputs_have_id(inputs, id)) by {
        if inputs_have_id(inputs, id) {
            let k = choose|k: int|
                0 <= k < inputs.len() && input_alarm_id(#[trigger] inputs[k]) == id;
            lemma_id_chars_is_task(
                inputs[k].workspace_id,
                inputs[k].task_id,
                inputs[k].start_at_unix,
            );
            assert(is_task_alarm_id(id));
            assert(id == alarm_id_chars(
                olds[i].workspace_id,
                olds[i].task_id,
                olds[i].start_at_unix,
            ));
            lemma_alarm_id_injective(
                inputs[k].workspace_id,
                inputs[k].task_id,
                inputs[k].start_at_unix,
                olds[i].workspace_id,
                olds[i].task_id,
                olds[i].start_at_unix,
            );
            assert(inputs_have_workspace(inputs, olds[i].workspace_id));
        }
    }
    assert(survives_sync(olds[i], inputs));
    let fpart = olds.filter(|r: AlarmRecordView| survives_sync(r, inputs));
    assert(fpart.contains(olds[i]));
    let j = choose|j: int| 0 <= j < fpart.len() && fpart[j] == olds[i];
    assert(sync_result(olds, inputs, now)[j] == olds[i]);
}

/// Snooze/dismiss survival: when a snoozed or dismissed record's schedule is
/// declared again with an unchanged start instant, the record that comes out
/// of the sync under that identity keeps the old status, next trigger and
/// creation instant.
pub proof fn lemma_sync_preserves_user_state(
    olds: Seq<AlarmRecordView>,
    inputs: Seq<TaskAlarmInputView>,
    now: i64,
    i: int,
    k: int,
)
    requires
        ids_unique(olds),
        distinct_input_ids(inputs),
        0 <= i < olds.len(),
        0 <= k < inputs.len(),
        olds[i].alarm_id == input_alarm_id(inputs[k]),
        olds[i].start_at_unix == inputs[k].start_at_unix,
        carries_user_state(olds[i].status),
    ensures
        exists|j: int|
            0 <= j < sync_result(olds, inputs, now).len() && (#[trigger] sync_result(
                olds,
                inputs,
                now,
            )[j]).alarm_id == olds[i].alarm_id && sync_result(olds, inputs, now)[j].status
                == olds[i].status && sync_result(olds, inputs, now)[j].next_trigger_at_unix
                == olds[i].next_trigger_at_unix && sync_result(olds, inputs, now)[j].created_at_unix
                == olds[i].created_at_unix,
{
    lemma_sync_result_shape(olds, inputs, now);
    lemma_merge_candidate_id(olds, inputs[k], now);
    assert forall|p: int| 0 <= p < i implies olds[p].alarm_id != olds[i].alarm_id by {}
    lemma_find_by_id_from_index(olds, olds[i].alarm_id, i);
    let mc = merge_candidate(olds, inputs[k], now);
    assert(mc.status == olds[i].status);
    assert(mc.next_trigger_at_unix == olds[i].next_trigger_at_unix);
    assert(mc.created_at_unix == olds[i].created_at_unix);
    let fpart = olds.filter(|r: AlarmRecordView| survives_sync(r, inputs));
    let mt = merged_tail(olds, inputs, now);
    let j = fpart.len() + k;
    assert(mt[k] == mc);
    assert(sync_result(olds, inputs, now)[j as int] == mc);
}

/// A declared schedule whose identity is not yet stored — in particular one
/// whose start instant changed, which changes the identity — comes out of
/// the sync as a freshly built record: no old status carries over.
pub proof fn lemma_sync_resets_changed_schedule(
    olds: Seq<AlarmRecordView>,
    inputs: Seq<TaskAlarmInputView>,
    now: i64,
    k: int,
)
    requires
        distinct_input_ids(inputs),
        0 <= k < inputs.len(),
        !has_alarm_id(olds, input_alarm_id(inputs[k])),
    ensures
        sync_result(olds, inputs, now).contains(build_alarm_view(inputs[k], now)),
{
    lemma_sync_result_shape(olds, inputs, now);
    lemma_merge_candidate_id(olds, inputs[k], now);
    let id = input_alarm_id(inputs[k]);
    assert forall|p: int| 0 <= p < olds.len() implies olds[p].alarm_id != id by {
        if olds[p].alarm_id == id {
            assert(has_alarm_id(olds, id));
        }
    }
    lemma_find_by_id_none(olds, id);
    let mc = merge_candidate(olds, inputs[k], now);
    assert(mc == build_alarm_view(inputs[k], now));
    let fpart = olds.filter(|r: AlarmRecordView| survives_sync(r, inputs));
    let mt = merged_tail(olds, inputs, now);
    assert(mt[k] == mc);
    let j = fpart.len() + k;
    assert(sync_result(olds, inputs, now)[j as int] == mc);
}

/// Idempotent re-sync: the same declaration applied twice at the same
/// instant gives the same store, record for record, as applying it once.
pub proof fn lemma_sync_idempotent(
    olds: Seq<AlarmRecordView>,
    inputs: Seq<TaskAlarmInputView>,
    now: i64,
)
    requires
        distinct_input_ids(inputs),
    ensures
        sync_result(sync_result(olds, inputs, now), inputs, now) == sync_result(
            olds,
            inputs,
            now,
        ),
{
    broadcast use vstd::seq_lib::group_filter_ensures;

    lemma_sync_result_shape(olds, inputs, now);
    let preds = |r: AlarmRecordView| survives_sync(r, inputs);
    let f1 = olds.filter(preds);
    let m1 = merged_tail(olds, inputs, now);
    let r1 = sync_result(olds, inputs, now);
    lemma_sync_result_shape(r1, inputs, now);

    // The survivors survive again; the merged candidates are all claimed by
    // an input, so none of them is a survivor of the second sync.
    assert forall|j: int| 0 <= j < f1.len() implies preds(#[trigger] f1[j]) by {}
    lemma_filter_all_true(f1, preds);
    assert forall|j: int| 0 <= j < m1.len() implies !preds(#[trigger] m1[j]) by {
        assert(m1[j] == merge_candidate(olds, inputs[j], now));
        lemma_merge_candidate_id(olds, inputs[j], now);
        assert(input_alarm_id(inputs[j]) == m1[j].alarm_id);
        assert(inputs_have_id(inputs, m1[j].alarm_id));
    }
    lemma_filter_all_false(m1, preds);
    Seq::<AlarmRecordView>::filter_distributes_over_add(f1, m1, preds);
    assert(r1.filter(preds) =~= f1);

    // Merging an input against the once-synced store finds exactly the
    // candidate that the first sync produced, and merging with it is a fixed
    // point.
    assert forall|k: int| 0 <= k < inputs.len() implies merged_tail(r1, inputs, now)[k] == m1[k] by {
        let id = input_alarm_id(inputs[k]);
        let mc = merge_candidate(olds, inputs[k], now);
        lemma_merge_candidate_id(olds, inputs[k], now);
        assert(m1[k] == mc);
        let j = f1.len() + k;
        assert(r1[j as int] == mc);
        assert forall|p: int| 0 <= p < j implies r1[p].alarm_id != id by {
            if p < f1.len() {
                assert(r1[p] == f1[p]);
                assert(survives_sync(f1[p], inputs));
                if f1[p].alarm_id == id {
                    assert(inputs_have_id(inputs, f1[p].alarm_id));
                }
            } else {
                assert(r1[p] == m1[p - f1.len()]);
                lemma_merge_candidate_id(olds, inputs[p - f1.len()], now);
                assert(input_alarm_id(inputs[p - f1.len()]) != input_alarm_id(inputs[k]));
            }
        }
        lemma_find_by_id_from_index(r1, id, j as int);
        assert(find_by_id(r1, id) == Some(mc));
        let fresh = build_alarm_view(inputs[k], now);
        assert(mc.start_at_unix == inputs[k].start_at_unix);
        assert(merge_candidate(r1, inputs[k], now) =~= mc);
    }
    assert(merged_tail(r1, inputs, now) =~= m1);
    assert(sync_result(r1, inputs, now) =~= r1);
}

} // verus!

verus! {

proof fn lemma_sync_partial_wf(
    olds: Seq<AlarmRecordView>,
    ivs: Seq<TaskAlarmInputView>,
    now: i64,
    k: int,
)
    requires
        crate::alarm::wf_alarms(olds),
        0 <= k <= ivs.len(),
    ensures
        crate::alarm::wf_alarms(sync_partial(olds, ivs, now, k)),
    decreases k,
{
    broadcast use vstd::seq_lib::group_filter_ensures;

    if k == 0 {
        crate::alarm::lemma_filter_wf(olds, |r: AlarmRecordView| retained_on_sync(r, ivs));
    } else {
        lemma_sync_partial_wf(olds, ivs, now, k - 1);
        let prev = sync_partial(olds, ivs, now, k - 1);
        let mc = merge_candidate(olds, ivs[k - 1], now);
        lemma_merge_candidate_id(olds, ivs[k - 1], now);
        let ne = |a: AlarmRecordView| a.alarm_id != mc.alarm_id;
        crate::alarm::lemma_filter_wf(prev, ne);
        let f = prev.filter(ne);
        crate::alarm::lemma_id_chars_is_task(
            ivs[k - 1].workspace_id,
            ivs[k - 1].task_id,
            ivs[k - 1].start_at_unix,
        );
        assert(id_consistent(mc));
        let res = sync_partial(olds, ivs, now, k);
        assert(res == f.push(mc));
        assert forall|i: int, j: int|
            0 <= i < j < res.len() implies #[trigger] res[i].alarm_id
            != #[trigger] res[j].alarm_id by {
            if j < f.len() {
                assert(res[i] == f[i]);
                assert(res[j] == f[j]);
            } else {
                assert(res[i] == f[i]);
                assert(ne(f[i]));
            }
        }
        assert forall|i: int| 0 <= i < res.len() implies id_consistent(#[trigger] res[i]) by {
            if i < f.len() {
                assert(res[i] == f[i]);
            } else {
                assert(res[i] == mc);
            }
        }
    }
}

/// The store invariant survives a sync: if the identities were unique and
/// consistent before, they are after, whatever the inputs.
pub proof fn lemma_sync_preserves_wf(
    olds: Seq<AlarmRecordView>,
    inputs: Seq<TaskAlarmInputView>,
    now: i64,
)
    requires
        crate::alarm::wf_alarms(olds),
    ensures
        crate::alarm::wf_alarms(sync_result(olds, inputs, now)),
{
    lemma_sync_partial_wf(olds, inputs, now, inputs.len() as int);
}

} // verus!

verus! {

proof fn lemma_find_by_id_found(alarms: Seq<AlarmRecordView>, id: Seq<char>)
    ensures
        match find_by_id(alarms, id) {
            Some(r) => alarms.contains(r),
            None => true,
        },
    decreases alarms.len(),
{
    if alarms.len() > 0 && alarms[0].alarm_id != id {
        lemma_find_by_id_found(alarms.drop_first(), id);
        if let Some(r) = find_by_id(alarms.drop_first(), id) {
            let i = choose|i: int|
                0 <= i < alarms.drop_first().len() && alarms.drop_first()[i] == r;
            assert(alarms[i + 1] == r);
        }
    }
}

/// A merged candidate satisfies the per-record invariant whenever the input
/// declares an enabled future schedule, or the stored record under that
/// identity was not snoozed. The one input left out is a snoozed record
/// re-declared as disabled or already past: there the carried snooze instant
/// stays on a record the declaration disables.
pub proof fn lemma_merge_keeps_record_invariant(
    olds: Seq<AlarmRecordView>,
    input: TaskAlarmInputView,
    now: i64,
)
    requires
        input_arith_ok(input),
        forall|i: int| 0 <= i < olds.len() ==> crate::alarm::record_invariant(#[trigger] olds[i]),
        build_alarm_view(input, now).is_enabled || (match find_by_id(
            olds,
            input_alarm_id(input),
        ) {
            Some(ex) => !(ex.status is Snoozed),
            None => true,
        }),
    ensures
        crate::alarm::record_invariant(merge_candidate(olds, input, now)),
{
    crate::alarm::lemma_build_satisfies_record_invariant(input, now);
    lemma_find_by_id_found(olds, input_alarm_id(input));
    match find_by_id(olds, input_alarm_id(input)) {
        Some(ex) => {
            let i = choose|i: int| 0 <= i < olds.len() && olds[i] == ex;
            assert(crate::alarm::record_invariant(ex));
        },
        None => {},
    }
}

} // verus!
