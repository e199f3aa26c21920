use deskcal::workspace::{Workspace, WorkspaceState, WorkspaceType, ensure_valid_state,
    get_team_workspace_creation_path, is_paid_plan, normalize_plan, validate_workspace_name};

fn ws(id: &str, name: &str, t: WorkspaceType) -> Workspace {
    Workspace {
        id: id.to_string(),
        name: name.to_string(),
        workspace_type: t,
        plan_tier: None,
        team_id: None,
        created_at_unix: 1,
        updated_at_unix: 1,
    }
}

fn state(current: Option<&str>, workspaces: Vec<Workspace>) -> WorkspaceState {
    WorkspaceState { current_workspace_id: current.map(|s| s.to_string()), workspaces }
}

#[test]
fn normalize_plan_trims_lowercases_and_defaults_to_free() {
    assert_eq!(normalize_plan("  PRO "), "pro");
    assert_eq!(normalize_plan("Enterprise"), "enterprise");
    assert_eq!(normalize_plan(""), "free");
    assert_eq!(normalize_plan("   "), "free");
}

#[test]
fn paid_plans_are_exactly_the_listed_tiers() {
    for paid in ["pro", "plus", "team", "business", "enterprise", "paid", "premium"] {
        assert!(is_paid_plan(paid));
        assert!(is_paid_plan(&paid.to_uppercase()));
    }
    assert!(!is_paid_plan("free"));
    assert!(!is_paid_plan(""));
    assert!(!is_paid_plan("basic"));
    assert!(is_paid_plan("pro "));  // trimmed before the check, still "pro"
}

#[test]
fn validate_workspace_name_bounds() {
    assert_eq!(validate_workspace_name("  My Space "), Ok("My Space".to_string()));
    assert_eq!(validate_workspace_name("x"), Ok("x".to_string()));
    assert_eq!(
        validate_workspace_name("   "),
        Err("Workspace name is required".to_string())
    );
    let long = "a".repeat(51);
    assert_eq!(
        validate_workspace_name(&long),
        Err("Workspace name must be 50 characters or less".to_string())
    );
    assert_eq!(validate_workspace_name(&"a".repeat(50)), Ok("a".repeat(50)));
}

#[test]
fn ensure_valid_state_seeds_an_empty_state() {
    let fixed = ensure_valid_state(state(None, vec![]));
    assert_eq!(fixed.workspaces.len(), 1);
    let first = &fixed.workspaces[0];
    assert_eq!(first.name, "내 워크스페이스");
    assert_eq!(first.workspace_type, WorkspaceType::Personal);
    assert_eq!(first.plan_tier, None);
    assert_eq!(first.team_id, None);
    assert_eq!(fixed.current_workspace_id, Some(first.id.clone()));
}

#[test]
fn ensure_valid_state_repairs_a_dangling_current() {
    let fixed = ensure_valid_state(state(Some("gone"), vec![ws("a", "A", WorkspaceType::Personal)]));
    assert_eq!(fixed.current_workspace_id, Some("a".to_string()));
    assert_eq!(fixed.workspaces.len(), 1);

    let kept = ensure_valid_state(state(Some("a"), vec![ws("a", "A", WorkspaceType::Personal)]));
    assert_eq!(kept.current_workspace_id, Some("a".to_string()));
}

#[test]
fn switch_workspace_trims_and_validates() {
    let mut s = state(Some("a"), vec![
        ws("a", "A", WorkspaceType::Personal),
        ws("b", "B", WorkspaceType::Team),
    ]);
    assert_eq!(s.switch_workspace("   ").unwrap_err(), "workspace_id is required");
    assert_eq!(s.switch_workspace("zz").unwrap_err(), "Workspace not found");
    assert_eq!(s.current_workspace_id, Some("a".to_string()));

    let got = s.switch_workspace(" b ").unwrap();
    assert_eq!(got.id, "b");
    assert_eq!(s.current_workspace_id, Some("b".to_string()));
}

#[test]
fn create_workspace_appends_a_personal_one_and_makes_it_current() {
    let mut s = state(None, vec![]);
    assert_eq!(s.create_workspace(" ").unwrap_err(), "Workspace name is required");
    let w = s.create_workspace("  Studio  ").unwrap();
    assert_eq!(w.name, "Studio");
    assert_eq!(w.workspace_type, WorkspaceType::Personal);
    assert_eq!(w.plan_tier, None);
    assert_eq!(w.team_id, None);
    assert_eq!(w.created_at_unix, w.updated_at_unix);
    assert_eq!(s.workspaces.len(), 1);
    assert_eq!(s.current_workspace_id, Some(w.id));
}

#[test]
fn rename_workspace_changes_only_the_name() {
    let mut s = state(Some("a"), vec![ws("a", "A", WorkspaceType::Personal)]);
    assert_eq!(s.rename_workspace("zz", "New").unwrap_err(), "Workspace not found");
    let w = s.rename_workspace("a", "  New Name ").unwrap();
    assert_eq!(w.name, "New Name");
    assert_eq!(w.id, "a");
    assert_eq!(s.workspaces[0].name, "New Name");
    assert_eq!(s.workspaces[0].created_at_unix, 1);
    assert_eq!(s.current_workspace_id, Some("a".to_string()));
}

#[test]
fn delete_workspace_guards_the_last_personal_one() {
    let mut s = state(Some("a"), vec![ws("a", "A", WorkspaceType::Personal)]);
    assert_eq!(
        s.delete_workspace(""),
        Err("workspace_id is required".to_string())
    );
    assert_eq!(s.delete_workspace("zz"), Err("Workspace not found".to_string()));
    assert_eq!(
        s.delete_workspace("a"),
        Err("At least one personal workspace is required".to_string())
    );
    assert_eq!(s.workspaces.len(), 1);
}

#[test]
fn delete_workspace_moves_the_current_pointer() {
    let mut s = state(Some("b"), vec![
        ws("a", "A", WorkspaceType::Personal),
        ws("b", "B", WorkspaceType::Personal),
        ws("c", "C", WorkspaceType::Team),
    ]);
    s.delete_workspace(" b ").unwrap();
    assert_eq!(s.workspaces.len(), 2);
    assert_eq!(s.current_workspace_id, Some("a".to_string()));

    // Deleting a non-current workspace leaves the pointer alone.
    s.delete_workspace("c").unwrap();
    assert_eq!(s.current_workspace_id, Some("a".to_string()));
    assert_eq!(s.workspaces.len(), 1);
}

#[test]
fn list_workspaces_splits_by_type() {
    let s = state(Some("a"), vec![
        ws("a", "A", WorkspaceType::Personal),
        ws("b", "B", WorkspaceType::Team),
        ws("c", "C", WorkspaceType::Personal),
    ]);
    let personal = s.list_personal_workspaces();
    assert_eq!(personal.len(), 2);
    assert_eq!(personal[0].id, "a");
    assert_eq!(personal[1].id, "c");
    let team = s.list_team_workspaces();
    assert_eq!(team.len(), 1);
    assert_eq!(team[0].id, "b");
}

#[test]
fn get_current_workspace_follows_the_pointer() {
    let mut s = state(Some("b"), vec![
        ws("a", "A", WorkspaceType::Personal),
        ws("b", "B", WorkspaceType::Team),
    ]);
    assert_eq!(s.get_current_workspace().unwrap().id, "b");
    s.current_workspace_id = None;
    assert!(s.get_current_workspace().is_none());
    s.current_workspace_id = Some("gone".to_string());
    assert!(s.get_current_workspace().is_none());
}

#[test]
fn create_team_workspace_normalizes_the_plan() {
    let mut s = state(None, vec![]);
    let res = s.create_team_workspace("  Crew ", " PRO ", Some(42)).unwrap();
    assert_eq!(res.status, "created");
    assert_eq!(res.route, "/workspace");
    assert_eq!(res.message, "팀 워크스페이스가 생성되었습니다.");
    let w = res.workspace.unwrap();
    assert_eq!(w.name, "Crew");
    assert_eq!(w.workspace_type, WorkspaceType::Team);
    assert_eq!(w.plan_tier, Some("pro".to_string()));
    assert_eq!(w.team_id, Some(42));
    assert_eq!(s.workspaces.len(), 1);
    assert_eq!(s.current_workspace_id, Some(w.id));

    assert_eq!(
        s.create_team_workspace("", "pro", None).unwrap_err(),
        "Workspace name is required"
    );
}

#[test]
fn team_creation_path_depends_on_the_plan() {
    let allowed = get_team_workspace_creation_path("Enterprise".to_string());
    assert_eq!(allowed.status, "allowed");
    assert_eq!(allowed.route, "/workspace/new/team");
    assert_eq!(allowed.message, "현재 플랜에서 팀 워크스페이스를 생성할 수 있습니다.");

    let denied = get_team_workspace_creation_path("free".to_string());
    assert_eq!(denied.status, "upgrade_required");
    assert_eq!(denied.route, "/billing/upgrade?target=team_workspace");
    assert_eq!(denied.message, "팀 워크스페이스 생성을 위해 유료 플랜 업그레이드가 필요합니다.");
}
