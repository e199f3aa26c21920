use deskcal::alarm::{AlarmManagerState, AlarmStatus, TaskAlarmInput, alarm_id_for_task,
    build_alarm_from_input, default_state};

fn input(task_id: i64, workspace_id: i64, title: &str, start_at_unix: i64) -> TaskAlarmInput {
    TaskAlarmInput {
        task_id,
        workspace_id,
        title: title.to_string(),
        start_at_unix,
        reminder_minutes_before: None,
        is_enabled: None,
    }
}

#[test]
fn alarm_id_is_stable_and_start_sensitive() {
    let a = alarm_id_for_task(9, 1, 1_700_000_000);
    let b = alarm_id_for_task(9, 1, 1_700_000_000);
    assert_eq!(a, b);
    assert_eq!(a, "task:9:1:1700000000");
    let c = alarm_id_for_task(9, 1, 1_700_000_060);
    assert_ne!(a, c);
    assert_eq!(alarm_id_for_task(-3, -7, -1), "task:-3:-7:-1");
}

#[test]
fn build_defaults_reminder_to_ten_minutes() {
    let now = 1_000_000;
    let rec = build_alarm_from_input(&input(1, 9, "standup", now + 900), now);
    assert_eq!(rec.status, AlarmStatus::Pending);
    assert!(rec.is_enabled);
    assert_eq!(rec.reminder_minutes_before, 10);
    assert_eq!(rec.trigger_at_unix, now + 900 - 600);
    assert_eq!(rec.next_trigger_at_unix, Some(now + 300));
    assert_eq!(rec.created_at_unix, now);
    assert_eq!(rec.updated_at_unix, now);
    assert_eq!(rec.last_triggered_at_unix, None);
}

#[test]
fn build_clamps_negative_reminder_to_zero() {
    let now = 1_000_000;
    let mut i = input(1, 9, "t", now + 100);
    i.reminder_minutes_before = Some(-5);
    let rec = build_alarm_from_input(&i, now);
    assert_eq!(rec.reminder_minutes_before, 0);
    assert_eq!(rec.trigger_at_unix, now + 100);
}

#[test]
fn build_clamps_past_trigger_to_now() {
    // A start five minutes ahead with a ten-minute reminder: the trigger
    // instant already passed, so the alarm is armed for right now.
    let now = 1_000_000;
    let t = now + 300;
    let rec = build_alarm_from_input(&input(1, 9, "soon", t), now);
    assert_eq!(rec.status, AlarmStatus::Pending);
    assert_eq!(rec.trigger_at_unix, t - 600);
    assert_eq!(rec.next_trigger_at_unix, Some(now));
}

#[test]
fn build_disabled_or_past_input_is_dismissed() {
    let now = 1_000_000;
    let mut disabled = input(1, 9, "t", now + 900);
    disabled.is_enabled = Some(false);
    let rec = build_alarm_from_input(&disabled, now);
    assert_eq!(rec.status, AlarmStatus::Dismissed);
    assert!(!rec.is_enabled);
    assert_eq!(rec.next_trigger_at_unix, None);

    let past = input(2, 9, "old", now - 1);
    let rec = build_alarm_from_input(&past, now);
    assert_eq!(rec.status, AlarmStatus::Dismissed);
    assert!(!rec.is_enabled);
}

#[test]
fn sync_creates_pending_alarm_and_fires_at_trigger() {
    let now = 1_000_000;
    let t = now + 900;
    let mut state = default_state();
    let count = state.sync_task_alarms(now, &vec![input(1, 9, "standup", t)]);
    assert_eq!(count, 1);
    let rec = &state.alarms[0];
    assert_eq!(rec.status, AlarmStatus::Pending);
    assert_eq!(rec.trigger_at_unix, t - 600);
    assert_eq!(rec.next_trigger_at_unix, Some(t - 600));

    // Before the trigger instant nothing fires.
    let fired = state.fire_due_alarms(t - 601);
    assert!(fired.is_empty());
    assert_eq!(state.alarms[0].status, AlarmStatus::Pending);

    // At the trigger instant exactly one notification comes out.
    let fired = state.fire_due_alarms(t - 600);
    assert_eq!(fired.len(), 1);
    assert_eq!(fired[0].task_id, 1);
    assert_eq!(fired[0].workspace_id, 9);
    assert_eq!(fired[0].title, "standup");
    assert_eq!(fired[0].message, "standup 일정 시간이 되었습니다.");
    assert_eq!(fired[0].scheduled_start_at_unix, t);
    assert_eq!(state.alarms[0].status, AlarmStatus::Fired);
    assert_eq!(state.alarms[0].last_triggered_at_unix, Some(t - 600));

    // A fired alarm does not fire twice.
    let fired = state.fire_due_alarms(t);
    assert!(fired.is_empty());
}

#[test]
fn snooze_rearms_a_fired_alarm() {
    let now = 1_000_000;
    let t = now + 900;
    let mut state = default_state();
    state.sync_task_alarms(now, &vec![input(1, 9, "standup", t)]);
    state.fire_due_alarms(t - 600);
    let id = state.alarms[0].alarm_id.clone();

    let snooze_at = t - 500;
    state.snooze_alarm(&id, 5, snooze_at).unwrap();
    assert_eq!(state.alarms[0].status, AlarmStatus::Snoozed);
    assert_eq!(state.alarms[0].next_trigger_at_unix, Some(snooze_at + 300));
    assert!(state.alarms[0].is_enabled);

    // Before the snooze runs out it does not re-fire.
    let fired = state.fire_due_alarms(snooze_at + 299);
    assert!(fired.is_empty());
    assert_eq!(state.alarms[0].status, AlarmStatus::Snoozed);

    // At the snooze instant it fires again.
    let fired = state.fire_due_alarms(snooze_at + 300);
    assert_eq!(fired.len(), 1);
    assert_eq!(state.alarms[0].status, AlarmStatus::Fired);
}

#[test]
fn snooze_clamps_minutes_to_at_least_one() {
    let now = 1_000_000;
    let mut state = default_state();
    state.sync_task_alarms(now, &vec![input(1, 9, "t", now + 900)]);
    let id = state.alarms[0].alarm_id.clone();
    state.snooze_alarm(&id, 0, now).unwrap();
    assert_eq!(state.alarms[0].next_trigger_at_unix, Some(now + 60));
    state.snooze_alarm(&id, -10, now).unwrap();
    assert_eq!(state.alarms[0].next_trigger_at_unix, Some(now + 60));
}

#[test]
fn snooze_and_dismiss_unknown_id_fail() {
    let now = 1_000_000;
    let mut state = default_state();
    assert_eq!(state.snooze_alarm("task:1:1:1", 5, now), Err("Alarm not found".to_string()));
    assert_eq!(state.dismiss_alarm("task:1:1:1", now), Err("Alarm not found".to_string()));
}

#[test]
fn dismiss_is_terminal_until_schedule_changes() {
    let now = 1_000_000;
    let t = now + 900;
    let mut state = default_state();
    state.sync_task_alarms(now, &vec![input(1, 9, "t", t)]);
    let id = state.alarms[0].alarm_id.clone();

    state.dismiss_alarm(&id, now + 1).unwrap();
    assert_eq!(state.alarms[0].status, AlarmStatus::Dismissed);
    assert!(!state.alarms[0].is_enabled);
    assert_eq!(state.alarms[0].next_trigger_at_unix, None);

    // Ticks never touch the dismissed record, even long after its start.
    let fired = state.fire_due_alarms(t + 10_000);
    assert!(fired.is_empty());
    assert_eq!(state.alarms[0].status, AlarmStatus::Dismissed);

    // A re-sync of the same schedule keeps the dismissal.
    state.sync_task_alarms(now + 10, &vec![input(1, 9, "t", t)]);
    assert_eq!(state.alarms[0].status, AlarmStatus::Dismissed);

    // A changed start instant is a new schedule: it revives as pending.
    let t2 = t + 3600;
    state.sync_task_alarms(now + 20, &vec![input(1, 9, "t", t2)]);
    assert_eq!(state.alarms.len(), 1);
    assert_eq!(state.alarms[0].status, AlarmStatus::Pending);
    assert!(state.alarms[0].is_enabled);
}

#[test]
fn snoozed_state_survives_resync_of_unchanged_schedule() {
    let now = 1_000_000;
    let t = now + 900;
    let mut state = default_state();
    state.sync_task_alarms(now, &vec![input(1, 9, "t", t)]);
    let id = state.alarms[0].alarm_id.clone();
    state.snooze_alarm(&id, 7, now).unwrap();
    let created = state.alarms[0].created_at_unix;

    state.sync_task_alarms(now + 5, &vec![input(1, 9, "renamed", t)]);
    assert_eq!(state.alarms.len(), 1);
    assert_eq!(state.alarms[0].status, AlarmStatus::Snoozed);
    assert_eq!(state.alarms[0].next_trigger_at_unix, Some(now + 420));
    assert_eq!(state.alarms[0].created_at_unix, created);
    // Metadata is refreshed from the declaration even then.
    assert_eq!(state.alarms[0].title, "renamed");
    assert_eq!(state.alarms[0].updated_at_unix, now + 5);
}

#[test]
fn sync_is_workspace_isolated() {
    let now = 1_000_000;
    let mut state = default_state();
    state.sync_task_alarms(now, &vec![input(1, 7, "a", now + 900), input(2, 8, "b", now + 900)]);
    assert_eq!(state.alarms.len(), 2);

    // Syncing workspace 7 alone drops its stale alarm but leaves workspace 8
    // untouched.
    let count = state.sync_task_alarms(now + 1, &vec![input(3, 7, "c", now + 900)]);
    assert_eq!(count, 2);
    let ids: Vec<&str> = state.alarms.iter().map(|a| a.alarm_id.as_str()).collect();
    assert!(ids.contains(&alarm_id_for_task(8, 2, now + 900).as_str()));
    assert!(ids.contains(&alarm_id_for_task(7, 3, now + 900).as_str()));
    assert!(!ids.contains(&alarm_id_for_task(7, 1, now + 900).as_str()));
    let b = state
        .alarms
        .iter()
        .find(|a| a.workspace_id == 8)
        .unwrap();
    assert_eq!(b.title, "b");
    assert_eq!(b.updated_at_unix, now);
}

#[test]
fn sync_twice_with_same_input_is_idempotent() {
    let now = 1_000_000;
    let mut state = default_state();
    let inputs = vec![input(1, 9, "a", now + 900), input(2, 9, "b", now - 5)];
    let count1 = state.sync_task_alarms(now, &inputs);
    let snapshot1 = state.get_alarm_manager_state();
    let count2 = state.sync_task_alarms(now, &inputs);
    assert_eq!(count1, count2);
    assert_eq!(state.alarms.len(), snapshot1.alarms.len());
    for (a, b) in state.alarms.iter().zip(snapshot1.alarms.iter()) {
        assert_eq!(a.alarm_id, b.alarm_id);
        assert_eq!(a.status, b.status);
        assert_eq!(a.next_trigger_at_unix, b.next_trigger_at_unix);
        assert_eq!(a.created_at_unix, b.created_at_unix);
        assert_eq!(a.updated_at_unix, b.updated_at_unix);
        assert_eq!(a.title, b.title);
    }
}

#[test]
fn notifications_toggle_gates_firing() {
    let now = 1_000_000;
    let mut state = default_state();
    state.sync_task_alarms(now, &vec![input(1, 9, "t", now + 1)]);
    state.set_notifications_enabled(false);
    let fired = state.fire_due_alarms(now + 10_000);
    assert!(fired.is_empty());
    assert_eq!(state.alarms[0].status, AlarmStatus::Pending);
    state.set_notifications_enabled(true);
    let fired = state.fire_due_alarms(now + 10_000);
    assert_eq!(fired.len(), 1);
}

#[test]
fn clear_workspace_removes_only_its_task_alarms() {
    let now = 1_000_000;
    let mut state = default_state();
    state.sync_task_alarms(now, &vec![input(1, 7, "a", now + 900), input(2, 8, "b", now + 900)]);
    state.clear_workspace_task_alarms(7);
    assert_eq!(state.alarms.len(), 1);
    assert_eq!(state.alarms[0].workspace_id, 8);
    state.clear_workspace_task_alarms(8);
    assert!(state.alarms.is_empty());
}

#[test]
fn default_state_is_well_formed() {
    let state = default_state();
    assert!(state.notifications_enabled);
    assert!(state.alarms.is_empty());
    assert!(state.is_well_formed());
}

#[test]
fn synced_state_is_well_formed_and_snapshot_matches() {
    let now = 1_000_000;
    let mut state = default_state();
    state.sync_task_alarms(now, &vec![input(1, 7, "a", now + 900), input(2, 8, "b", now + 900)]);
    assert!(state.is_well_formed());
    let snap = state.get_alarm_manager_state();
    assert_eq!(snap.notifications_enabled, state.notifications_enabled);
    assert_eq!(snap.alarms.len(), state.alarms.len());
    assert_eq!(snap.alarms[0].alarm_id, state.alarms[0].alarm_id);
}

#[test]
fn tampered_state_is_not_well_formed() {
    let now = 1_000_000;
    let mut state = default_state();
    state.sync_task_alarms(now, &vec![input(1, 7, "a", now + 900)]);
    let mut twin = state.alarms[0].clone();
    // A second record under the same identity breaks uniqueness.
    state.alarms.push(twin.clone());
    assert!(!state.is_well_formed());
    state.alarms.pop();
    // A task-shaped identity that contradicts the record's coordinates
    // breaks consistency.
    twin.alarm_id = "task:1:2:3".to_string();
    state.alarms.push(twin);
    assert!(!state.is_well_formed());
}
