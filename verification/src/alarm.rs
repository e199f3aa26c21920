//! The task-alarm engine's data model and lifecycle operations.
//!
//! An alarm's identity is a string derived deterministically from the
//! workspace, the task and the scheduled start instant, so that re-syncing an
//! unchanged schedule meets the same record again. This module holds the
//! record types and their mathematical views, the identity construction with
//! its injectivity proofs, the normalization of a sync input into a record,
//! and the operations that act on one record or on the whole collection:
//! snooze, dismiss, the global notification switch, clearing a workspace, and
//! the periodic due-check that fires alarms. The reconciliation of a desired
//! alarm list into the store lives in the `sync` module.

use vstd::prelude::*;
use crate::numfmt::{dec_int, is_dec_digit, lemma_dec_int_chars, lemma_dec_int_injective,
    i64_to_string};
use crate::seqtools::lemma_concat_cancel_left;
use crate::strutil::str_eq;

verus! {

use vstd::string::StrSliceExecFns;
use vstd::string::StringExecFns;

#[derive(Debug, Clone, Copy, PartialEq, Eq, Structural)]
pub enum AlarmStatus {
    Pending,
    Snoozed,
    Fired,
    Dismissed,
}

#[derive(Debug, Clone)]
pub struct AlarmRecord {
    pub alarm_id: String,
    pub task_id: i64,
    pub workspace_id: i64,
    pub title: String,
    pub start_at_unix: i64,
    pub trigger_at_unix: i64,
    pub next_trigger_at_unix: Option<i64>,
    pub status: AlarmStatus,
    pub is_enabled: bool,
    pub reminder_minutes_before: i64,
    pub last_triggered_at_unix: Option<i64>,
    pub created_at_unix: i64,
    pub updated_at_unix: i64,
}

#[verifier::ext_equal]
pub struct AlarmRecordView {
    pub alarm_id: Seq<char>,
    pub task_id: i64,
    pub workspace_id: i64,
    pub title: Seq<char>,
    pub start_at_unix: i64,
    pub trigger_at_unix: i64,
    pub next_trigger_at_unix: Option<i64>,
    pub status: AlarmStatus,
    pub is_enabled: bool,
    pub reminder_minutes_before: i64,
    pub last_triggered_at_unix: Option<i64>,
    pub created_at_unix: i64,
    pub updated_at_unix: i64,
}

impl View for AlarmRecord {
    type V = AlarmRecordView;

    open spec fn view(&self) -> AlarmRecordView {
        AlarmRecordView {
            alarm_id: self.alarm_id@,
            task_id: self.task_id,
            workspace_id: self.workspace_id,
            title: self.title@,
            start_at_unix: self.start_at_unix,
            trigger_at_unix: self.trigger_at_unix,
            next_trigger_at_unix: self.next_trigger_at_unix,
            status: self.status,
            is_enabled: self.is_enabled,
            reminder_minutes_before: self.reminder_minutes_before,
            last_triggered_at_unix: self.last_triggered_at_unix,
            created_at_unix: self.created_at_unix,
            updated_at_unix: self.updated_at_unix,
        }
    }
}

pub open spec fn rec_views(s: Seq<AlarmRecord>) -> Seq<AlarmRecordView> {
    s.map_values(|r: AlarmRecord| r@)
}

#[derive(Debug, Clone)]
pub struct AlarmManagerState {
    pub notifications_enabled: bool,
    pub alarms: Vec<AlarmRecord>,
}

#[verifier::ext_equal]
pub struct AlarmManagerStateView {
    pub notifications_enabled: bool,
    pub alarms: Seq<AlarmRecordView>,
}

impl View for AlarmManagerState {
    type V = AlarmManagerStateView;

    open spec fn view(&self) -> AlarmManagerStateView {
        AlarmManagerStateView {
            notifications_enabled: self.notifications_enabled,
            alarms: rec_views(self.alarms@),
        }
    }
}

#[derive(Debug, Clone)]
pub struct TaskAlarmInput {
    pub task_id: i64,
    pub workspace_id: i64,
    pub title: String,
    pub start_at_unix: i64,
    pub reminder_minutes_before: Option<i64>,
    pub is_enabled: Option<bool>,
}

#[verifier::ext_equal]
pub struct TaskAlarmInputView {
    pub task_id: i64,
    pub workspace_id: i64,
    pub title: Seq<char>,
    pub start_at_unix: i64,
    pub reminder_minutes_before: Option<i64>,
    pub is_enabled: Option<bool>,
}

impl View for TaskAlarmInput {
    type V = TaskAlarmInputView;

    open spec fn view(&self) -> TaskAlarmInputView {
        TaskAlarmInputView {
            task_id: self.task_id,
            workspace_id: self.workspace_id,
            title: self.title@,
            start_at_unix: self.start_at_unix,
            reminder_minutes_before: self.reminder_minutes_before,
            is_enabled: self.is_enabled,
        }
    }
}

#[derive(Debug, Clone)]
pub struct AlarmTriggeredPayload {
    pub alarm_id: String,
    pub task_id: i64,
    pub workspace_id: i64,
    pub title: String,
    pub message: String,
    pub scheduled_start_at_unix: i64,
}

#[verifier::ext_equal]
pub struct AlarmTriggeredPayloadView {
    pub alarm_id: Seq<char>,
    pub task_id: i64,
    pub workspace_id: i64,
    pub title: Seq<char>,
    pub message: Seq<char>,
    pub scheduled_start_at_unix: i64,
}

impl View for AlarmTriggeredPayload {
    type V = AlarmTriggeredPayloadView;

    open spec fn view(&self) -> AlarmTriggeredPayloadView {
        AlarmTriggeredPayloadView {
            alarm_id: self.alarm_id@,
            task_id: self.task_id,
            workspace_id: self.workspace_id,
            title: self.title@,
            message: self.message@,
            scheduled_start_at_unix: self.scheduled_start_at_unix,
        }
    }
}

pub open spec fn payload_views(s: Seq<AlarmTriggeredPayload>) -> Seq<AlarmTriggeredPayloadView> {
    s.map_values(|p: AlarmTriggeredPayload| p@)
}

// ---------------------------------------------------------------------------
// Alarm identity
// ---------------------------------------------------------------------------
/// The marker that distinguishes task-derived alarms from any other records
/// the store might hold.
pub open spec fn task_prefix() -> Seq<char> {
    seq!['t', 'a', 's', 'k', ':']
}

/// The identity of a task alarm: the task's coordinates joined by colons. The
/// decimal parts contain no colon, so the identity determines the triple.
pub open spec fn alarm_id_chars(workspace_id: i64, task_id: i64, start_at_unix: i64) -> Seq<
    char,
> {
    task_prefix() + dec_int(workspace_id as int) + seq![':'] + dec_int(task_id as int) + seq![':']
        + dec_int(start_at_unix as int)
}

pub open spec fn is_task_alarm_id(id: Seq<char>) -> bool {
    id.len() >= 5 && id.subrange(0, 5) == task_prefix()
}

/// Builds the stable identity string for one task occurrence.
pub fn alarm_id_for_task(workspace_id: i64, task_id: i64, start_at_unix: i64) -> (r: String)
    ensures
        r@ == alarm_id_chars(workspace_id, task_id, start_at_unix),
{
    let mut s = String::from_str("task:");
    proof {
        reveal_strlit("task:");
        reveal_strlit(":");
        assert(s@ =~= task_prefix());
        assert((":")@ =~= seq![':']);
    }
    let ws = i64_to_string(workspace_id);
    s.append(ws.as_str());
    s.append(":");
    let t = i64_to_string(task_id);
    s.append(t.as_str());
    s.append(":");
    let st = i64_to_string(start_at_unix);
    s.append(st.as_str());
    proof {
        assert(s@ =~= alarm_id_chars(workspace_id, task_id, start_at_unix));
    }
    s
}

/// Whether an identity string marks a task-derived alarm.
pub fn id_has_task_prefix(id: &str) -> (r: bool)
    ensures
        r == is_task_alarm_id(id@),
{
    if id.unicode_len() < 5 {
        return false;
    }
    let m = id.get_char(0) == 't' && id.get_char(1) == 'a' && id.get_char(2) == 's' && id.get_char(
        3,
    ) == 'k' && id.get_char(4) == ':';
    proof {
        if m {
            assert(id@.subrange(0, 5) =~= task_prefix());
        } else {
            assert(id@.subrange(0, 5) != task_prefix()) by {
                if id@.subrange(0, 5) == task_prefix() {
                    assert(id@[0] == id@.subrange(0, 5)[0]);
                    assert(id@[1] == id@.subrange(0, 5)[1]);
                    assert(id@[2] == id@.subrange(0, 5)[2]);
                    assert(id@[3] == id@.subrange(0, 5)[3]);
                    assert(id@[4] == id@.subrange(0, 5)[4]);
                }
            }
        }
    }
    m
}

/// Two colon-free parts followed by colon-separated tails split uniquely.
proof fn lemma_colon_split(x1: Seq<char>, y1: Seq<char>, x2: Seq<char>, y2: Seq<char>)
    requires
        x1 + seq![':'] + y1 == x2 + seq![':'] + y2,
        forall|i: int| 0 <= i < x1.len() ==> x1[i] != ':',
        forall|i: int| 0 <= i < x2.len() ==> x2[i] != ':',
    ensures
        x1 == x2,
        y1 == y2,
{
    let s = x1 + seq![':'] + y1;
    let n1 = x1.len() as int;
    let n2 = x2.len() as int;
    assert(s[n1] == ':');
    assert(s[n2] == ':');
    if n1 < n2 {
        assert(s[n1] == x2[n1]);
        assert(false);
    }
    if n2 < n1 {
        assert(s[n2] == x1[n2]);
        assert(false);
    }
    assert forall|i: int| 0 <= i < x1.len() implies x1[i] == x2[i] by {
        assert(s[i] == x1[i]);
        assert(s[i] == x2[i]);
    }
    assert(x1 =~= x2);
    assert((x1 + seq![':'] + y1).len() == (x2 + seq![':'] + y2).len());
    assert((x1 + seq![':'] + y1).len() == (x1 + seq![':']).len() + y1.len());
    assert((x1 + seq![':']).len() == x1.len() + 1);
    assert((x2 + seq![':'] + y2).len() == (x2 + seq![':']).len() + y2.len());
    assert((x2 + seq![':']).len() == x2.len() + 1);
    assert(y1.len() == y2.len());
    assert forall|i: int| 0 <= i < y1.len() implies y1[i] == y2[i] by {
        let k = n1 + 1 + i;
        assert(s[k] == y1[i]);
        assert((x2 + seq![':'] + y2)[k] == y2[i]);
        assert(s[k] == (x2 + seq![':'] + y2)[k]);
    }
    assert(y1 =~= y2);
}

/// The alarm identity determines the workspace, the task and the start
/// instant: distinct triples give distinct identity strings.
pub proof fn lemma_alarm_id_injective(
    w1: i64,
    t1: i64,
    s1: i64,
    w2: i64,
    t2: i64,
    s2: i64,
)
    requires
        alarm_id_chars(w1, t1, s1) == alarm_id_chars(w2, t2, s2),
    ensures
        w1 == w2,
        t1 == t2,
        s1 == s2,
{
    let a1 = dec_int(w1 as int);
    let b1 = dec_int(t1 as int);
    let c1 = dec_int(s1 as int);
    let a2 = dec_int(w2 as int);
    let b2 = dec_int(t2 as int);
    let c2 = dec_int(s2 as int);
    let rest1 = a1 + seq![':'] + (b1 + seq![':'] + c1);
    let rest2 = a2 + seq![':'] + (b2 + seq![':'] + c2);
    assert(alarm_id_chars(w1, t1, s1) =~= task_prefix() + rest1);
    assert(alarm_id_chars(w2, t2, s2) =~= task_prefix() + rest2);
    lemma_concat_cancel_left(task_prefix(), rest1, rest2);
    lemma_dec_int_chars(w1 as int);
    lemma_dec_int_chars(w2 as int);
    assert forall|i: int| 0 <= i < a1.len() implies a1[i] != ':' by {
        assert(is_dec_digit(a1[i]) || a1[i] == '-');
    }
    assert forall|i: int| 0 <= i < a2.len() implies a2[i] != ':' by {
        assert(is_dec_digit(a2[i]) || a2[i] == '-');
    }
    lemma_colon_split(a1, b1 + seq![':'] + c1, a2, b2 + seq![':'] + c2);
    lemma_dec_int_injective(w1 as int, w2 as int);
    lemma_dec_int_chars(t1 as int);
    lemma_dec_int_chars(t2 as int);
    assert forall|i: int| 0 <= i < b1.len() implies b1[i] != ':' by {
        assert(is_dec_digit(b1[i]) || b1[i] == '-');
    }
    assert forall|i: int| 0 <= i < b2.len() implies b2[i] != ':' by {
        assert(is_dec_digit(b2[i]) || b2[i] == '-');
    }
    lemma_colon_split(b1, c1, b2, c2);
    lemma_dec_int_injective(t1 as int, t2 as int);
    lemma_dec_int_injective(s1 as int, s2 as int);
}

/// Every constructed identity carries the task marker.
pub proof fn lemma_id_chars_is_task(w: i64, t: i64, s: i64)
    ensures
        is_task_alarm_id(alarm_id_chars(w, t, s)),
{
    let rest = dec_int(w as int) + seq![':'] + dec_int(t as int) + seq![':'] + dec_int(s as int);
    let id = alarm_id_chars(w, t, s);
    assert(id =~= task_prefix() + rest);
    assert(id.len() == task_prefix().len() + rest.len());
    assert(id.subrange(0, 5) =~= task_prefix());
}

/// Identity stability: the same triple always yields the same identity, and
/// a changed start instant always yields a different one.
pub proof fn lemma_alarm_id_stable(w: i64, t: i64, s1: i64, s2: i64)
    ensures
        s1 == s2 ==> alarm_id_chars(w, t, s1) == alarm_id_chars(w, t, s2),
        s1 != s2 ==> alarm_id_chars(w, t, s1) != alarm_id_chars(w, t, s2),
{
    if alarm_id_chars(w, t, s1) == alarm_id_chars(w, t, s2) {
        lemma_alarm_id_injective(w, t, s1, w, t, s2);
    }
}

// ---------------------------------------------------------------------------
// Normalizing a sync input into a record
// ---------------------------------------------------------------------------
/// The reminder offset in minutes: defaults to 10, clamped to be
/// non-negative.
pub open spec fn effective_reminder(input: TaskAlarmInputView) -> int {
    let m = match input.reminder_minutes_before {
        Some(m) => m as int,
        None => 10,
    };
    if m < 0 {
        0
    } else {
        m
    }
}

/// The machine limit on one input: the trigger instant
/// `start_at - reminder * 60` must fit in the timestamp type.
pub open spec fn input_arith_ok(input: TaskAlarmInputView) -> bool {
    &&& effective_reminder(input) * 60 <= i64::MAX
    &&& input.start_at_unix - effective_reminder(input) * 60 >= i64::MIN
}

/// The record a sync input normalizes to. A disabled input, or one whose
/// start is not in the future, is created directly as a dismissed, disabled
/// record; otherwise the record is pending and armed at its trigger instant
/// (or right away when the trigger instant already passed).
pub open spec fn build_alarm_view(input: TaskAlarmInputView, now: i64) -> AlarmRecordView {
    let rem = effective_reminder(input);
    let trig = (input.start_at_unix - rem * 60) as i64;
    let enabled = match input.is_enabled {
        Some(b) => b,
        None => true,
    };
    if !enabled || input.start_at_unix <= now {
        AlarmRecordView {
            alarm_id: alarm_id_chars(input.workspace_id, input.task_id, input.start_at_unix),
            task_id: input.task_id,
            workspace_id: input.workspace_id,
            title: input.title,
            start_at_unix: input.start_at_unix,
            trigger_at_unix: trig,
            next_trigger_at_unix: None,
            status: AlarmStatus::Dismissed,
            is_enabled: false,
            reminder_minutes_before: rem as i64,
            last_triggered_at_unix: None,
            created_at_unix: now,
            updated_at_unix: now,
        }
    } else {
        AlarmRecordView {
            alarm_id: alarm_id_chars(input.workspace_id, input.task_id, input.start_at_unix),
            task_id: input.task_id,
            workspace_id: input.workspace_id,
            title: input.title,
            start_at_unix: input.start_at_unix,
            trigger_at_unix: trig,
            next_trigger_at_unix: Some(if trig >= now {
                trig
            } else {
                now
            }),
            status: AlarmStatus::Pending,
            is_enabled: true,
            reminder_minutes_before: rem as i64,
            last_triggered_at_unix: None,
            created_at_unix: now,
            updated_at_unix: now,
        }
    }
}

/// Normalizes one sync input into a candidate record, per the construction
/// rule of the engine.
pub fn build_alarm_from_input(input: &TaskAlarmInput, now: i64) -> (r: AlarmRecord)
    requires
        input_arith_ok(input@),
    ensures
        r@ == build_alarm_view(input@, now),
{
    let reminder_raw = match input.reminder_minutes_before {
        Some(m) => m,
        None => 10,
    };
    let reminder = if reminder_raw < 0 {
        0
    } else {
        reminder_raw
    };
    let trigger_at = input.start_at_unix - reminder * 60;
    let enabled = match input.is_enabled {
        Some(b) => b,
        None => true,
    };
    let alarm_id = alarm_id_for_task(input.workspace_id, input.task_id, input.start_at_unix);
    if !enabled || input.start_at_unix <= now {
        let r = AlarmRecord {
            alarm_id,
            task_id: input.task_id,
            workspace_id: input.workspace_id,
            title: input.title.clone(),
            start_at_unix: input.start_at_unix,
            trigger_at_unix: trigger_at,
            next_trigger_at_unix: None,
            status: AlarmStatus::Dismissed,
            is_enabled: false,
            reminder_minutes_before: reminder,
            last_triggered_at_unix: None,
            created_at_unix: now,
            updated_at_unix: now,
        };
        proof {
            assert(r@ =~= build_alarm_view(input@, now));
        }
        r
    } else {
        let next = if trigger_at >= now {
            trigger_at
        } else {
            now
        };
        let r = AlarmRecord {
            alarm_id,
            task_id: input.task_id,
            workspace_id: input.workspace_id,
            title: input.title.clone(),
            start_at_unix: input.start_at_unix,
            trigger_at_unix: trigger_at,
            next_trigger_at_unix: Some(next),
            status: AlarmStatus::Pending,
            is_enabled: true,
            reminder_minutes_before: reminder,
            last_triggered_at_unix: None,
            created_at_unix: now,
            updated_at_unix: now,
        };
        proof {
            assert(r@ =~= build_alarm_view(input@, now));
        }
        r
    }
}

// ---------------------------------------------------------------------------
// Well-formedness of the store
// ---------------------------------------------------------------------------
/// No two records share an identity.
pub open spec fn ids_unique(alarms: Seq<AlarmRecordView>) -> bool {
    forall|i: int, j: int|
        0 <= i < j < alarms.len() ==> #[trigger] alarms[i].alarm_id != #[trigger] alarms[j].alarm_id
}

/// A task-derived record's identity agrees with its own coordinates.
pub open spec fn id_consistent(r: AlarmRecordView) -> bool {
    is_task_alarm_id(r.alarm_id) ==> r.alarm_id == alarm_id_chars(
        r.workspace_id,
        r.task_id,
        r.start_at_unix,
    )
}

pub open spec fn wf_alarms(alarms: Seq<AlarmRecordView>) -> bool {
    &&& ids_unique(alarms)
    &&& forall|i: int| 0 <= i < alarms.len() ==> id_consistent(#[trigger] alarms[i])
}

impl AlarmManagerStateView {
    pub open spec fn wf(self) -> bool {
        wf_alarms(self.alarms)
    }
}

/// Filtering keeps the store invariant: identities stay unique and
/// consistent.
pub proof fn lemma_filter_wf(s: Seq<AlarmRecordView>, pred: spec_fn(AlarmRecordView) -> bool)
    requires
        wf_alarms(s),
    ensures
        wf_alarms(s.filter(pred)),
{
    broadcast use vstd::seq_lib::group_filter_ensures;

    let f = s.filter(pred);
    crate::seqtools::lemma_filter_elements(s, pred);
    assert forall|i: int| 0 <= i < f.len() implies id_consistent(#[trigger] f[i]) by {
        assert(s.contains(f[i]));
        let p = choose|p: int| 0 <= p < s.len() && s[p] == f[i];
        assert(id_consistent(s[p]));
    }
    assert forall|i: int, j: int|
        0 <= i < j < f.len() implies #[trigger] f[i].alarm_id != #[trigger] f[j].alarm_id by {
        lemma_filter_distinct_positions(s, pred, i, j);
    }
}

/// Two positions of a filtered sequence come from two distinct positions of
/// the unfiltered one, in order.
pub(crate) proof fn lemma_filter_distinct_positions(
    s: Seq<AlarmRecordView>,
    pred: spec_fn(AlarmRecordView) -> bool,
    i: int,
    j: int,
)
    requires
        ids_unique(s),
        0 <= i < j < s.filter(pred).len(),
    ensures
        s.filter(pred)[i].alarm_id != s.filter(pred)[j].alarm_id,
    decreases s.len(),
{
    reveal(Seq::filter);
    if s.len() > 0 {
        let d = s.drop_last();
        let f = s.filter(pred);
        assert(ids_unique(d)) by {
            assert forall|p: int, q: int|
                0 <= p < q < d.len() implies #[trigger] d[p].alarm_id
                != #[trigger] d[q].alarm_id by {
                assert(s[p] == d[p]);
                assert(s[q] == d[q]);
            }
        }
        if pred(s.last()) {
            if j < f.len() - 1 {
                lemma_filter_distinct_positions(d, pred, i, j);
            } else {
                assert(f[j] == s.last());
                crate::seqtools::lemma_filter_elements(d, pred);
                assert(d.contains(d.filter(pred)[i]));
                let p = choose|p: int| 0 <= p < d.len() && d[p] == d.filter(pred)[i];
                assert(s[p].alarm_id != s[s.len() - 1].alarm_id);
            }
        } else {
            lemma_filter_distinct_positions(d, pred, i, j);
        }
    }
}

/// Replacing one record by another with the same identity and coordinates
/// keeps the store invariant.
pub proof fn lemma_update_preserves_wf(olds: Seq<AlarmRecordView>, j: int, r: AlarmRecordView)
    requires
        wf_alarms(olds),
        0 <= j < olds.len(),
        r.alarm_id == olds[j].alarm_id,
        r.workspace_id == olds[j].workspace_id,
        r.task_id == olds[j].task_id,
        r.start_at_unix == olds[j].start_at_unix,
    ensures
        wf_alarms(olds.update(j, r)),
{
    let news = olds.update(j, r);
    assert forall|p: int, q: int|
        0 <= p < q < news.len() implies #[trigger] news[p].alarm_id
        != #[trigger] news[q].alarm_id by {
        assert(news[p].alarm_id == olds[p].alarm_id);
        assert(news[q].alarm_id == olds[q].alarm_id);
    }
    assert forall|p: int| 0 <= p < news.len() implies id_consistent(#[trigger] news[p]) by {
        if p != j {
            assert(news[p] == olds[p]);
        } else {
            assert(id_consistent(olds[j]));
        }
    }
}

/// The per-record invariant of the data model: a next trigger is set only on
/// an enabled pending or snoozed record, and the trigger instant never lies
/// after the start instant.
pub open spec fn record_invariant(r: AlarmRecordView) -> bool {
    &&& r.next_trigger_at_unix is Some ==> (r.status is Pending || r.status is Snoozed)
        && r.is_enabled
    &&& r.trigger_at_unix <= r.start_at_unix
}

/// Freshly built records satisfy the per-record invariant.
pub proof fn lemma_build_satisfies_record_invariant(input: TaskAlarmInputView, now: i64)
    requires
        input_arith_ok(input),
    ensures
        record_invariant(build_alarm_view(input, now)),
{
}

/// Snoozing, dismissing and firing keep the per-record invariant.
pub proof fn lemma_lifecycle_keeps_record_invariant(r: AlarmRecordView, minutes: i64, now: i64)
    requires
        record_invariant(r),
    ensures
        record_invariant(snoozed_record(r, minutes, now)),
        record_invariant(dismissed_record(r, now)),
        record_invariant(fired_record(r, now)),
{
}

// ---------------------------------------------------------------------------
// Defaults
// ---------------------------------------------------------------------------
pub fn default_notifications_enabled() -> (r: bool)
    ensures
        r,
{
    true
}

/// The state a fresh or unreadable store resolves to: notifications on, no
/// alarms.
pub fn default_state() -> (r: AlarmManagerState)
    ensures
        r@.notifications_enabled,
        r@.alarms.len() == 0,
        r@.wf(),
{
    let r = AlarmManagerState { notifications_enabled: default_notifications_enabled(), alarms: Vec::new() };
    proof {
        assert(rec_views(r.alarms@) =~= Seq::<AlarmRecordView>::empty());
    }
    r
}

// ---------------------------------------------------------------------------
// Lifecycle operations
// ---------------------------------------------------------------------------
pub(crate) fn duplicate_record(r: &AlarmRecord) -> (d: AlarmRecord)
    ensures
        d@ == r@,
{
    AlarmRecord {
        alarm_id: r.alarm_id.clone(),
        task_id: r.task_id,
        workspace_id: r.workspace_id,
        title: r.title.clone(),
        start_at_unix: r.start_at_unix,
        trigger_at_unix: r.trigger_at_unix,
        next_trigger_at_unix: r.next_trigger_at_unix,
        status: r.status,
        is_enabled: r.is_enabled,
        reminder_minutes_before: r.reminder_minutes_before,
        last_triggered_at_unix: r.last_triggered_at_unix,
        created_at_unix: r.created_at_unix,
        updated_at_unix: r.updated_at_unix,
    }
}

pub open spec fn has_alarm_id(alarms: Seq<AlarmRecordView>, id: Seq<char>) -> bool {
    exists|k: int| 0 <= k < alarms.len() && #[trigger] alarms[k].alarm_id == id
}

/// The instant the scheduler compares against the clock: the explicit next
/// trigger when one is set, the computed trigger instant otherwise.
pub open spec fn due_time(r: AlarmRecordView) -> i64 {
    match r.next_trigger_at_unix {
        Some(t) => t,
        None => r.trigger_at_unix,
    }
}

/// Whether the scheduler fires the record at instant `now`.
pub open spec fn is_due(r: AlarmRecordView, now: i64) -> bool {
    &&& r.is_enabled
    &&& (r.status is Pending || r.status is Snoozed)
    &&& due_time(r) <= now
}

/// The record after firing: status moves to fired, the audit instants are
/// set, and the next trigger is cleared.
pub open spec fn fired_record(r: AlarmRecordView, now: i64) -> AlarmRecordView {
    AlarmRecordView {
        alarm_id: r.alarm_id,
        task_id: r.task_id,
        workspace_id: r.workspace_id,
        title: r.title,
        start_at_unix: r.start_at_unix,
        trigger_at_unix: r.trigger_at_unix,
        next_trigger_at_unix: None,
        status: AlarmStatus::Fired,
        is_enabled: r.is_enabled,
        reminder_minutes_before: r.reminder_minutes_before,
        last_triggered_at_unix: Some(now),
        created_at_unix: r.created_at_unix,
        updated_at_unix: now,
    }
}

pub open spec fn fired_message(title: Seq<char>) -> Seq<char> {
    title + (" 일정 시간이 되었습니다.")@
}

/// The notification payload for one fired record.
pub open spec fn payload_of(r: AlarmRecordView) -> AlarmTriggeredPayloadView {
    AlarmTriggeredPayloadView {
        alarm_id: r.alarm_id,
        task_id: r.task_id,
        workspace_id: r.workspace_id,
        title: r.title,
        message: fired_message(r.title),
        scheduled_start_at_unix: r.start_at_unix,
    }
}

/// The snoozed form of a record: deferred by at least one minute from `now`,
/// re-enabled, with the audit instant set.
pub open spec fn snooze_until(now: i64, minutes: i64) -> i64 {
    (now + (if minutes < 1 {
        1
    } else {
        minutes as int
    }) * 60) as i64
}

pub open spec fn snooze_arith_ok(now: i64, minutes: i64) -> bool {
    &&& (if minutes < 1 {
        1
    } else {
        minutes as int
    }) * 60 <= i64::MAX
    &&& now + (if minutes < 1 {
        1
    } else {
        minutes as int
    }) * 60 <= i64::MAX
}

pub open spec fn snoozed_record(r: AlarmRecordView, minutes: i64, now: i64) -> AlarmRecordView {
    AlarmRecordView {
        alarm_id: r.alarm_id,
        task_id: r.task_id,
        workspace_id: r.workspace_id,
        title: r.title,
        start_at_unix: r.start_at_unix,
        trigger_at_unix: r.trigger_at_unix,
        next_trigger_at_unix: Some(snooze_until(now, minutes)),
        status: AlarmStatus::Snoozed,
        is_enabled: true,
        reminder_minutes_before: r.reminder_minutes_before,
        last_triggered_at_unix: r.last_triggered_at_unix,
        created_at_unix: r.created_at_unix,
        updated_at_unix: now,
    }
}

/// The dismissed form of a record: terminal, disabled, with no next trigger.
pub open spec fn dismissed_record(r: AlarmRecordView, now: i64) -> AlarmRecordView {
    AlarmRecordView {
        alarm_id: r.alarm_id,
        task_id: r.task_id,
        workspace_id: r.workspace_id,
        title: r.title,
        start_at_unix: r.start_at_unix,
        trigger_at_unix: r.trigger_at_unix,
        next_trigger_at_unix: None,
        status: AlarmStatus::Dismissed,
        is_enabled: false,
        reminder_minutes_before: r.reminder_minutes_before,
        last_triggered_at_unix: r.last_triggered_at_unix,
        created_at_unix: r.created_at_unix,
        updated_at_unix: now,
    }
}

impl AlarmManagerState {
    /// Whether the store satisfies its invariant: identities are unique and
    /// every task-derived record's identity agrees with its coordinates.
    /// Loaded state should be checked with this before it is trusted.
    pub fn is_well_formed(&self) -> (r: bool)
        ensures
            r == self@.wf(),
    {
        let n = self.alarms.len();
        let mut i: usize = 0;
        while i < n
            invariant
                n == self.alarms@.len(),
                0 <= i <= n,
                forall|p: int, q: int|
                    0 <= p < q < n && p < i ==> #[trigger] self@.alarms[p].alarm_id
                        != #[trigger] self@.alarms[q].alarm_id,
                forall|p: int| 0 <= p < i ==> id_consistent(#[trigger] self@.alarms[p]),
            decreases n - i,
        {
            let r = &self.alarms[i];
            if id_has_task_prefix(r.alarm_id.as_str()) {
                let expected = alarm_id_for_task(r.workspace_id, r.task_id, r.start_at_unix);
                if !str_eq(r.alarm_id.as_str(), expected.as_str()) {
                    proof {
                        assert(self@.alarms[i as int] == self.alarms@[i as int]@);
                        assert(!id_consistent(self@.alarms[i as int]));
                    }
                    return false;
                }
            }
            let mut j: usize = i + 1;
            while j < n
                invariant
                    n == self.alarms@.len(),
                    0 <= i < j <= n,
                    forall|q: int|
                        i < q < j ==> self@.alarms[i as int].alarm_id != #[trigger] self@.alarms[q].alarm_id,
                decreases n - j,
            {
                if str_eq(self.alarms[i].alarm_id.as_str(), self.alarms[j].alarm_id.as_str()) {
                    proof {
                        assert(self@.alarms[i as int].alarm_id == self@.alarms[j as int].alarm_id);
                        assert(!ids_unique(self@.alarms));
                    }
                    return false;
                }
                j += 1;
            }
            i += 1;
        }
        true
    }

    /// A deep copy of the whole state, for handing a snapshot across the
    /// process boundary.
    pub fn get_alarm_manager_state(&self) -> (r: AlarmManagerState)
        ensures
            r@ == self@,
    {
        let mut alarms: Vec<AlarmRecord> = Vec::new();
        let n = self.alarms.len();
        let mut i: usize = 0;
        while i < n
            invariant
                n == self.alarms@.len(),
                0 <= i <= n,
                alarms@.len() == i,
                forall|j: int| 0 <= j < i ==> #[trigger] alarms@[j]@ == self@.alarms[j],
            decreases n - i,
        {
            alarms.push(duplicate_record(&self.alarms[i]));
            i += 1;
        }
        let r = AlarmManagerState { notifications_enabled: self.notifications_enabled, alarms };
        proof {
            assert(r@.alarms =~= self@.alarms);
            assert(r@ =~= self@);
        }
        r
    }

    /// Flip the global notification switch; the records are untouched.
    pub fn set_notifications_enabled(&mut self, enabled: bool)
        ensures
            final(self).notifications_enabled == enabled,
            final(self)@.alarms == old(self)@.alarms,
    {
        self.notifications_enabled = enabled;
    }

    /// Remove every task-derived alarm of one workspace; other records and
    /// other workspaces are untouched.
    pub fn clear_workspace_task_alarms(&mut self, workspace_id: i64)
        ensures
            final(self).notifications_enabled == old(self).notifications_enabled,
            final(self)@.alarms == old(self)@.alarms.filter(
                |r: AlarmRecordView|
                    !(r.workspace_id == workspace_id && is_task_alarm_id(r.alarm_id)),
            ),
            old(self)@.wf() ==> final(self)@.wf(),
    {
        let ghost olds = self@.alarms;
        let mut kept: Vec<AlarmRecord> = Vec::new();
        let n = self.alarms.len();
        let mut i: usize = 0;
        proof {
            assert(olds.subrange(0, 0) =~= Seq::<AlarmRecordView>::empty());
        }
        while i < n
            invariant
                n == self.alarms@.len(),
                olds == self@.alarms,
                0 <= i <= n,
                rec_views(kept@) == olds.subrange(0, i as int).filter(
                    |r: AlarmRecordView|
                        !(r.workspace_id == workspace_id && is_task_alarm_id(r.alarm_id)),
                ),
            decreases n - i,
        {
            let r = &self.alarms[i];
            let keep = !(r.workspace_id == workspace_id && id_has_task_prefix(
                r.alarm_id.as_str(),
            ));
            proof {
                let p = |r: AlarmRecordView|
                    !(r.workspace_id == workspace_id && is_task_alarm_id(r.alarm_id));
                assert(olds.subrange(0, i + 1 as int) =~= olds.subrange(0, i as int).push(
                    olds[i as int],
                ));
                crate::seqtools::lemma_filter_push(olds.subrange(0, i as int), olds[i as int], p);
            }
            if keep {
                kept.push(duplicate_record(r));
                proof {
                    assert(rec_views(kept@) =~= rec_views(kept@.drop_last()).push(
                        kept@.last()@,
                    ));
                }
            }
            i += 1;
        }
        proof {
            assert(olds.subrange(0, n as int) =~= olds);
            if old(self)@.wf() {
                lemma_filter_wf(
                    olds,
                    |r: AlarmRecordView|
                        !(r.workspace_id == workspace_id && is_task_alarm_id(r.alarm_id)),
                );
            }
        }
        self.alarms = kept;
    }

    /// Defer one alarm: at least one minute from `now`, re-enabled, marked
    /// snoozed. Fails exactly when no record has the identity.
    pub fn snooze_alarm(&mut self, alarm_id: &str, minutes: i64, now: i64) -> (r: Result<
        (),
        String,
    >)
        requires
            snooze_arith_ok(now, minutes),
        ensures
            final(self).notifications_enabled == old(self).notifications_enabled,
            (r is Ok) == has_alarm_id(old(self)@.alarms, alarm_id@),
            r is Err ==> final(self)@ == old(self)@ && r->Err_0@ == ("Alarm not found")@,
            r is Ok ==> exists|j: int|
                0 <= j < old(self)@.alarms.len() && (#[trigger] old(self)@.alarms[j]).alarm_id
                    == alarm_id@ && (forall|k: int|
                    0 <= k < j ==> old(self)@.alarms[k].alarm_id != alarm_id@) && final(self)@.alarms == old(self)@.alarms.update(
                    j,
                    snoozed_record(old(self)@.alarms[j], minutes, now),
                ),
            old(self)@.wf() ==> final(self)@.wf(),
    {
        let m = if minutes < 1 {
            1
        } else {
            minutes
        };
        let until = now + m * 60;
        match self.find_alarm_position(alarm_id) {
            None => Err(String::from_str("Alarm not found")),
            Some(j) => {
                let mut rec = self.alarms.remove(j);
                rec.status = AlarmStatus::Snoozed;
                rec.next_trigger_at_unix = Some(until);
                rec.is_enabled = true;
                rec.updated_at_unix = now;
                self.alarms.insert(j, rec);
                proof {
                    assert(final(self)@.alarms =~= old(self)@.alarms.update(
                        j as int,
                        snoozed_record(old(self)@.alarms[j as int], minutes, now),
                    ));
                    if old(self)@.wf() {
                        lemma_update_preserves_wf(
                            old(self)@.alarms,
                            j as int,
                            snoozed_record(old(self)@.alarms[j as int], minutes, now),
                        );
                    }
                }
                Ok(())
            },
        }
    }

    /// Dismiss one alarm: terminal, disabled, no next trigger. Fails exactly
    /// when no record has the identity.
    pub fn dismiss_alarm(&mut self, alarm_id: &str, now: i64) -> (r: Result<(), String>)
        ensures
            final(self).notifications_enabled == old(self).notifications_enabled,
            (r is Ok) == has_alarm_id(old(self)@.alarms, alarm_id@),
            r is Err ==> final(self)@ == old(self)@ && r->Err_0@ == ("Alarm not found")@,
            r is Ok ==> exists|j: int|
                0 <= j < old(self)@.alarms.len() && (#[trigger] old(self)@.alarms[j]).alarm_id
                    == alarm_id@ && (forall|k: int|
                    0 <= k < j ==> old(self)@.alarms[k].alarm_id != alarm_id@) && final(self)@.alarms == old(self)@.alarms.update(
                    j,
                    dismissed_record(old(self)@.alarms[j], now),
                ),
            old(self)@.wf() ==> final(self)@.wf(),
    {
        match self.find_alarm_position(alarm_id) {
            None => Err(String::from_str("Alarm not found")),
            Some(j) => {
                let mut rec = self.alarms.remove(j);
                rec.status = AlarmStatus::Dismissed;
                rec.next_trigger_at_unix = None;
                rec.is_enabled = false;
                rec.updated_at_unix = now;
                self.alarms.insert(j, rec);
                proof {
                    assert(final(self)@.alarms =~= old(self)@.alarms.update(
                        j as int,
                        dismissed_record(old(self)@.alarms[j as int], now),
                    ));
                    if old(self)@.wf() {
                        lemma_update_preserves_wf(
                            old(self)@.alarms,
                            j as int,
                            dismissed_record(old(self)@.alarms[j as int], now),
                        );
                    }
                }
                Ok(())
            },
        }
    }

    /// The scheduler's tick: when notifications are enabled, every enabled
    /// pending or snoozed record whose due instant has been reached moves to
    /// fired, and exactly one notification payload is produced per fired
    /// record, in store order. Everything else is untouched.
    pub fn fire_due_alarms(&mut self, now: i64) -> (fired: Vec<AlarmTriggeredPayload>)
        ensures
            final(self).notifications_enabled == old(self).notifications_enabled,
            !old(self).notifications_enabled ==> final(self)@ == old(self)@ && fired@.len() == 0,
            old(self).notifications_enabled ==> {
                &&& final(self)@.alarms.len() == old(self)@.alarms.len()
                &&& (forall|i: int|
                    0 <= i < old(self)@.alarms.len() ==> final(self)@.alarms[i] == (if is_due(
                        #[trigger] old(self)@.alarms[i],
                        now,
                    ) {
                        fired_record(old(self)@.alarms[i], now)
                    } else {
                        old(self)@.alarms[i]
                    }))
                &&& payload_views(fired@) == old(self)@.alarms.filter(
                    |r: AlarmRecordView| is_due(r, now),
                ).map_values(|r: AlarmRecordView| payload_of(r))
            },
            old(self)@.wf() ==> final(self)@.wf(),
    {
        if !self.notifications_enabled {
            return Vec::new();
        }
        let ghost olds = self@.alarms;

        let mut updated: Vec<AlarmRecord> = Vec::new();
        let mut fired: Vec<AlarmTriggeredPayload> = Vec::new();
        let n = self.alarms.len();
        let mut i: usize = 0;
        proof {
            assert(olds.subrange(0, 0) =~= Seq::<AlarmRecordView>::empty());
        }
        while i < n
            invariant
                n == self.alarms@.len(),
                olds == self@.alarms,
                0 <= i <= n,
                updated@.len() == i,
                forall|j: int|
                    0 <= j < i ==> #[trigger] updated@[j]@ == (if is_due(olds[j], now) {
                        fired_record(olds[j], now)
                    } else {
                        olds[j]
                    }),
                payload_views(fired@) == olds.subrange(0, i as int).filter(
                    |r: AlarmRecordView| is_due(r, now),
                ).map_values(|r: AlarmRecordView| payload_of(r)),
            decreases n - i,
        {
            let r = &self.alarms[i];
            let pending_or_snoozed = match r.status {
                AlarmStatus::Pending => true,
                AlarmStatus::Snoozed => true,
                _ => false,
            };
            let due_at = match r.next_trigger_at_unix {
                Some(t) => t,
                None => r.trigger_at_unix,
            };
            let fires = r.is_enabled && pending_or_snoozed && due_at <= now;
            proof {
                assert(olds[i as int] == self.alarms@[i as int]@);
                assert(fires == is_due(olds[i as int], now));
                assert(olds.subrange(0, i + 1 as int) =~= olds.subrange(0, i as int).push(
                    olds[i as int],
                ));
                crate::seqtools::lemma_filter_push(
                    olds.subrange(0, i as int),
                    olds[i as int],
                    |r: AlarmRecordView| is_due(r, now),
                );
            }
            if fires {
                let message = r.title.clone().concat(" 일정 시간이 되었습니다.");
                fired.push(
                    AlarmTriggeredPayload {
                        alarm_id: r.alarm_id.clone(),
                        task_id: r.task_id,
                        workspace_id: r.workspace_id,
                        title: r.title.clone(),
                        message,
                        scheduled_start_at_unix: r.start_at_unix,
                    },
                );
                let mut nr = duplicate_record(r);
                nr.status = AlarmStatus::Fired;
                nr.next_trigger_at_unix = None;
                nr.last_triggered_at_unix = Some(now);
                nr.updated_at_unix = now;
                updated.push(nr);
                proof {
                    assert(fired@.last()@ =~= payload_of(olds[i as int]));
                    assert(updated@.last()@ =~= fired_record(olds[i as int], now));
                    assert(payload_views(fired@) =~= payload_views(fired@.drop_last()).push(
                        fired@.last()@,
                    ));
                    let f0 = olds.subrange(0, i as int).filter(
                        |r: AlarmRecordView| is_due(r, now),
                    );
                    let x = olds[i as int];
                    f0.lemma_push_map_commute(|r: AlarmRecordView| payload_of(r), x);
                }
            } else {
                updated.push(duplicate_record(r));
            }
            i += 1;
        }
        proof {
            assert(olds.subrange(0, n as int) =~= olds);
        }
        self.alarms = updated;
        proof {
            assert(final(self)@.alarms.len() == olds.len());
            if old(self)@.wf() {
                let news = final(self)@.alarms;
                assert forall|p: int, q: int|
                    0 <= p < q < news.len() implies #[trigger] news[p].alarm_id
                    != #[trigger] news[q].alarm_id by {
                    assert(news[p].alarm_id == olds[p].alarm_id);
                    assert(news[q].alarm_id == olds[q].alarm_id);
                }
                assert forall|p: int| 0 <= p < news.len() implies id_consistent(
                    #[trigger] news[p],
                ) by {
                    assert(id_consistent(olds[p]));
                }
            }
        }
        fired
    }

    /// Index of the first record with the given identity.
    pub(crate) fn find_alarm_position(&self, alarm_id: &str) -> (r: Option<usize>)
        ensures
            match r {
                Some(j) => 0 <= j < self@.alarms.len() && self@.alarms[j as int].alarm_id
                    == alarm_id@ && (forall|k: int|
                    0 <= k < j ==> self@.alarms[k].alarm_id != alarm_id@),
                None => forall|k: int|
                    0 <= k < self@.alarms.len() ==> self@.alarms[k].alarm_id != alarm_id@,
            },
            (r is Some) == has_alarm_id(self@.alarms, alarm_id@),
    {
        let n = self.alarms.len();
        let mut i: usize = 0;
        while i < n
            invariant
                n == self.alarms@.len(),
                0 <= i <= n,
                forall|k: int| 0 <= k < i ==> self@.alarms[k].alarm_id != alarm_id@,
            decreases n - i,
        {
            if str_eq(self.alarms[i].alarm_id.as_str(), alarm_id) {
                proof {
                    assert(self@.alarms[i as int].alarm_id == alarm_id@);
                }
                return Some(i);
            }
            i += 1;
        }
        None
    }
}

} // verus!
