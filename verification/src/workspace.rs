//! Workspace management: the persisted shapes, name and plan rules, and the
//! operations that mutate the workspace list. Loading and saving the JSON
//! file, and the wall clock behind fresh identifiers, live outside the
//! verified code.

use vstd::prelude::*;
use crate::strutil::{lower_of, str_eq, trim_of};

verus! {

use vstd::string::StrSliceExecFns;

#[derive(Debug, Clone, Copy, PartialEq, Eq, Structural)]
pub enum WorkspaceType {
    Personal,
    Team,
}

#[derive(Debug, Clone)]
pub struct Workspace {
    pub id: String,
    pub name: String,
    pub workspace_type: WorkspaceType,
    pub plan_tier: Option<String>,
    pub team_id: Option<i64>,
    pub created_at_unix: i64,
    pub updated_at_unix: i64,
}

#[verifier::ext_equal]
pub struct WorkspaceView {
    pub id: Seq<char>,
    pub name: Seq<char>,
    pub workspace_type: WorkspaceType,
    pub plan_tier: Option<Seq<char>>,
    pub team_id: Option<i64>,
    pub created_at_unix: i64,
    pub updated_at_unix: i64,
}

impl View for Workspace {
    type V = WorkspaceView;

    open spec fn view(&self) -> WorkspaceView {
        WorkspaceView {
            id: self.id@,
            name: self.name@,
            workspace_type: self.workspace_type,
            plan_tier: match self.plan_tier {
                Some(p) => Some(p@),
                None => None,
            },
            team_id: self.team_id,
            created_at_unix: self.created_at_unix,
            updated_at_unix: self.updated_at_unix,
        }
    }
}

pub open spec fn ws_views(s: Seq<Workspace>) -> Seq<WorkspaceView> {
    s.map_values(|w: Workspace| w@)
}

#[derive(Debug, Clone)]
pub struct WorkspaceState {
    pub current_workspace_id: Option<String>,
    pub workspaces: Vec<Workspace>,
}

#[verifier::ext_equal]
pub struct WorkspaceStateView {
    pub current_workspace_id: Option<Seq<char>>,
    pub workspaces: Seq<WorkspaceView>,
}

impl View for WorkspaceState {
    type V = WorkspaceStateView;

    open spec fn view(&self) -> WorkspaceStateView {
        WorkspaceStateView {
            current_workspace_id: match self.current_workspace_id {
                Some(id) => Some(id@),
                None => None,
            },
            workspaces: ws_views(self.workspaces@),
        }
    }
}

#[derive(Debug, Clone)]
pub struct TeamWorkspaceCreationPath {
    pub status: String,
    pub route: String,
    pub message: String,
}

#[derive(Debug, Clone)]
pub struct TeamWorkspaceCreationResult {
    pub status: String,
    pub message: String,
    pub route: String,
    pub workspace: Option<Workspace>,
}

// ---------------------------------------------------------------------------
// Identifier generation (wall clock)
// ---------------------------------------------------------------------------
/// A fresh team identifier. Relies on `std::time::SystemTime::now`
/// (milliseconds since the epoch); the result depends on the wall clock, so
/// nothing is promised of it.
#[verifier::external_body]
pub fn new_team_id() -> i64 {
    match std::time::SystemTime::now().duration_since(std::time::UNIX_EPOCH) {
        Ok(d) => d.as_millis() as i64,
        Err(_) => 0,
    }
}

/// A fresh workspace identifier. Relies on `std::time::SystemTime::now`
/// (milliseconds since the epoch rendered into the id); the result depends on
/// the wall clock, so nothing is promised of it.
#[verifier::external_body]
pub fn new_workspace_id() -> String {
    let ts = match std::time::SystemTime::now().duration_since(std::time::UNIX_EPOCH) {
        Ok(d) => d.as_millis(),
        Err(_) => 0,
    };
    format!("ws_{}", ts)
}

// ---------------------------------------------------------------------------
// Plan and name rules
// ---------------------------------------------------------------------------
/// A plan tier's normal form: trimmed and lowercased, with the empty form
/// standing for the free plan.
pub open spec fn normalize_plan_of(s: Seq<char>) -> Seq<char> {
    if lower_of(trim_of(s)).len() == 0 {
        ("free")@
    } else {
        lower_of(trim_of(s))
    }
}

/// Trimmed, lowercased plan tier; empty becomes "free".
pub fn normalize_plan(plan_tier: &str) -> (r: String)
    ensures
        r@ == normalize_plan_of(plan_tier@),
{
    let normalized = plan_tier.trim().to_lowercase();
    if normalized.as_str().unicode_len() == 0 {
        String::from_str("free")
    } else {
        normalized
    }
}

/// The plan tiers that allow creating a team workspace.
pub open spec fn is_paid_plan_of(s: Seq<char>) -> bool {
    let n = normalize_plan_of(s);
    ||| n == ("pro")@
    ||| n == ("plus")@
    ||| n == ("team")@
    ||| n == ("business")@
    ||| n == ("enterprise")@
    ||| n == ("paid")@
    ||| n == ("premium")@
}

/// Whether the plan tier is a paid one.
pub fn is_paid_plan(plan_tier: &str) -> (r: bool)
    ensures
        r == is_paid_plan_of(plan_tier@),
{
    let n = normalize_plan(plan_tier);
    let s = n.as_str();
    str_eq(s, "pro") || str_eq(s, "plus") || str_eq(s, "team") || str_eq(s, "business") || str_eq(
        s,
        "enterprise",
    ) || str_eq(s, "paid") || str_eq(s, "premium")
}

pub open spec fn workspace_name_ok(s: Seq<char>) -> bool {
    1 <= trim_of(s).len() <= 50
}

/// A workspace name is accepted when its trimmed form has 1 to 50
/// characters; the accepted value is the trimmed form.
pub fn validate_workspace_name(name: &str) -> (r: Result<String, String>)
    ensures
        trim_of(trim_of(name@)) == trim_of(name@),
        workspace_name_ok(name@) ==> r is Ok && r->Ok_0@ == trim_of(name@),
        trim_of(name@).len() == 0 ==> r is Err && r->Err_0@ == ("Workspace name is required")@,
        trim_of(name@).len() > 50 ==> r is Err && r->Err_0@ == (
        "Workspace name must be 50 characters or less")@,
{
    let trimmed = name.trim();
    let len = trimmed.unicode_len();
    if len == 0 {
        Err(String::from_str("Workspace name is required"))
    } else if len > 50 {
        Err(String::from_str("Workspace name must be 50 characters or less"))
    } else {
        Ok(trimmed.to_owned())
    }
}

// ---------------------------------------------------------------------------
// State repair and defaults
// ---------------------------------------------------------------------------
/// The workspace a fresh state starts with. Its identifier and timestamps
/// come from the wall clock, so only the other fields are pinned down.
pub fn default_personal_workspace() -> (r: Workspace)
    ensures
        r@.name == ("내 워크스페이스")@,
        r@.workspace_type is Personal,
        r@.plan_tier is None,
        r@.team_id is None,
        r@.created_at_unix == r@.updated_at_unix,
{
    let now = crate::clock::now_unix();
    Workspace {
        id: new_workspace_id(),
        name: String::from_str("내 워크스페이스"),
        workspace_type: WorkspaceType::Personal,
        plan_tier: None,
        team_id: None,
        created_at_unix: now,
        updated_at_unix: now,
    }
}

pub open spec fn has_workspace_id(workspaces: Seq<WorkspaceView>, id: Seq<char>) -> bool {
    exists|k: int| 0 <= k < workspaces.len() && (#[trigger] workspaces[k]).id == id
}

/// The stored current-workspace pointer refers to a stored workspace.
pub open spec fn current_is_valid(s: WorkspaceStateView) -> bool {
    match s.current_workspace_id {
        Some(id) => has_workspace_id(s.workspaces, id),
        None => false,
    }
}

fn duplicate_workspace(w: &Workspace) -> (d: Workspace)
    ensures
        d@ == w@,
{
    Workspace {
        id: w.id.clone(),
        name: w.name.clone(),
        workspace_type: w.workspace_type,
        plan_tier: match &w.plan_tier {
            Some(p) => Some(p.clone()),
            None => None,
        },
        team_id: w.team_id,
        created_at_unix: w.created_at_unix,
        updated_at_unix: w.updated_at_unix,
    }
}

/// Index of the first workspace with the given identifier.
fn find_workspace_position(workspaces: &Vec<Workspace>, id: &str) -> (r: Option<usize>)
    ensures
        match r {
            Some(j) => 0 <= j < workspaces@.len() && ws_views(workspaces@)[j as int].id == id@ && (
            forall|k: int| 0 <= k < j ==> ws_views(workspaces@)[k].id != id@),
            None => forall|k: int|
                0 <= k < workspaces@.len() ==> ws_views(workspaces@)[k].id != id@,
        },
        (r is Some) == has_workspace_id(ws_views(workspaces@), id@),
{
    let n = workspaces.len();
    let mut i: usize = 0;
    while i < n
        invariant
            n == workspaces@.len(),
            0 <= i <= n,
            forall|k: int| 0 <= k < i ==> ws_views(workspaces@)[k].id != id@,
        decreases n - i,
    {
        if str_eq(workspaces[i].id.as_str(), id) {
            proof {
                assert(ws_views(workspaces@)[i as int].id == id@);
            }
            return Some(i);
        }
        i += 1;
    }
    None
}

/// Repair a loaded state: an empty list gets one fresh personal workspace,
/// and a dangling or missing current pointer is moved to the first workspace.
pub fn ensure_valid_state(state: WorkspaceState) -> (r: WorkspaceState)
    ensures
        state@.workspaces.len() == 0 ==> {
            &&& r@.workspaces.len() == 1
            &&& r@.current_workspace_id == Some(r@.workspaces[0].id)
            &&& r@.workspaces[0].name == ("내 워크스페이스")@
            &&& r@.workspaces[0].workspace_type is Personal
            &&& r@.workspaces[0].plan_tier is None
            &&& r@.workspaces[0].team_id is None
        },
        state@.workspaces.len() > 0 ==> r@.workspaces == state@.workspaces,
        state@.workspaces.len() > 0 && current_is_valid(state@) ==> r@.current_workspace_id
            == state@.current_workspace_id,
        state@.workspaces.len() > 0 && !current_is_valid(state@) ==> r@.current_workspace_id
            == Some(state@.workspaces[0].id),
{
    let mut state = state;
    if state.workspaces.len() == 0 {
        let ws = default_personal_workspace();
        state.current_workspace_id = Some(ws.id.clone());
        state.workspaces.push(ws);
        proof {
            assert(ws_views(state.workspaces@).len() == 1);
        }
        return state;
    }
    let current_exists = match &state.current_workspace_id {
        Some(id) => find_workspace_position(&state.workspaces, id.as_str()).is_some(),
        None => false,
    };
    if !current_exists {
        state.current_workspace_id = Some(state.workspaces[0].id.clone());
    }
    state
}

impl WorkspaceState {
    /// The personal workspaces, in stored order.
    pub fn list_personal_workspaces(&self) -> (r: Vec<Workspace>)
        ensures
            ws_views(r@) == self@.workspaces.filter(
                |w: WorkspaceView| w.workspace_type is Personal,
            ),
    {
        let ghost views = self@.workspaces;
        let mut out: Vec<Workspace> = Vec::new();
        let n = self.workspaces.len();
        let mut i: usize = 0;
        proof {
            assert(views.subrange(0, 0) =~= Seq::<WorkspaceView>::empty());
        }
        while i < n
            invariant
                n == self.workspaces@.len(),
                views == self@.workspaces,
                0 <= i <= n,
                ws_views(out@) == views.subrange(0, i as int).filter(
                    |w: WorkspaceView| w.workspace_type is Personal,
                ),
            decreases n - i,
        {
            proof {
                assert(views.subrange(0, i + 1 as int) =~= views.subrange(0, i as int).push(
                    views[i as int],
                ));
                crate::seqtools::lemma_filter_push(
                    views.subrange(0, i as int),
                    views[i as int],
                    |w: WorkspaceView| w.workspace_type is Personal,
                );
            }
            let is_personal = match self.workspaces[i].workspace_type {
                WorkspaceType::Personal => true,
                WorkspaceType::Team => false,
            };
            if is_personal {
                out.push(duplicate_workspace(&self.workspaces[i]));
                proof {
                    assert(ws_views(out@) =~= ws_views(out@.drop_last()).push(out@.last()@));
                }
            }
            i += 1;
        }
        proof {
            assert(views.subrange(0, n as int) =~= views);
        }
        out
    }

    /// The team workspaces, in stored order.
    pub fn list_team_workspaces(&self) -> (r: Vec<Workspace>)
        ensures
            ws_views(r@) == self@.workspaces.filter(|w: WorkspaceView| w.workspace_type is Team),
    {
        let ghost views = self@.workspaces;
        let mut out: Vec<Workspace> = Vec::new();
        let n = self.workspaces.len();
        let mut i: usize = 0;
        proof {
            assert(views.subrange(0, 0) =~= Seq::<WorkspaceView>::empty());
        }
        while i < n
            invariant
                n == self.workspaces@.len(),
                views == self@.workspaces,
                0 <= i <= n,
                ws_views(out@) == views.subrange(0, i as int).filter(
                    |w: WorkspaceView| w.workspace_type is Team,
                ),
            decreases n - i,
        {
            proof {
                assert(views.subrange(0, i + 1 as int) =~= views.subrange(0, i as int).push(
                    views[i as int],
                ));
                crate::seqtools::lemma_filter_push(
                    views.subrange(0, i as int),
                    views[i as int],
                    |w: WorkspaceView| w.workspace_type is Team,
                );
            }
            let is_team = match self.workspaces[i].workspace_type {
                WorkspaceType::Team => true,
                WorkspaceType::Personal => false,
            };
            if is_team {
                out.push(duplicate_workspace(&self.workspaces[i]));
                proof {
                    assert(ws_views(out@) =~= ws_views(out@.drop_last()).push(out@.last()@));
                }
            }
            i += 1;
        }
        proof {
            assert(views.subrange(0, n as int) =~= views);
        }
        out
    }

    /// The workspace the current pointer refers to: the first stored
    /// workspace with that identifier, if any.
    pub fn get_current_workspace(&self) -> (r: Option<Workspace>)
        ensures
            self@.current_workspace_id is None ==> r is None,
            match self@.current_workspace_id {
                None => r is None,
                Some(id) => {
                    &&& (r is Some) == has_workspace_id(self@.workspaces, id)
                    &&& r is Some ==> exists|j: int|
                        0 <= j < self@.workspaces.len() && (#[trigger] self@.workspaces[j]).id
                            == id && (forall|k: int|
                            0 <= k < j ==> self@.workspaces[k].id != id) && r->0@
                            == self@.workspaces[j]
                },
            },
    {
        let id = match &self.current_workspace_id {
            None => {
                return None;
            },
            Some(id) => id,
        };
        match find_workspace_position(&self.workspaces, id.as_str()) {
            None => None,
            Some(j) => {
                proof {
                    assert(self@.workspaces[j as int].id == id@);
                }
                Some(duplicate_workspace(&self.workspaces[j]))
            },
        }
    }

    /// Make the given workspace current. The identifier is trimmed; an empty
    /// or unknown identifier is rejected and the state is untouched.
    pub fn switch_workspace(&mut self, workspace_id: &str) -> (r: Result<Workspace, String>)
        ensures
            final(self)@.workspaces == old(self)@.workspaces,
            trim_of(workspace_id@).len() == 0 ==> r is Err && r->Err_0@ == (
            "workspace_id is required")@ && final(self)@ == old(self)@,
            trim_of(workspace_id@).len() > 0 && !has_workspace_id(
                old(self)@.workspaces,
                trim_of(workspace_id@),
            ) ==> r is Err && r->Err_0@ == ("Workspace not found")@ && final(self)@ == old(self)@,
            trim_of(workspace_id@).len() > 0 && has_workspace_id(
                old(self)@.workspaces,
                trim_of(workspace_id@),
            ) ==> r is Ok && final(self)@.current_workspace_id == Some(trim_of(workspace_id@))
                && exists|j: int|
                0 <= j < old(self)@.workspaces.len() && (#[trigger] old(self)@.workspaces[j]).id
                    == trim_of(workspace_id@) && (forall|k: int|
                    0 <= k < j ==> old(self)@.workspaces[k].id != trim_of(workspace_id@))
                    && r->Ok_0@ == old(self)@.workspaces[j],
    {
        let trimmed = workspace_id.trim();
        if trimmed.unicode_len() == 0 {
            return Err(String::from_str("workspace_id is required"));
        }
        match find_workspace_position(&self.workspaces, trimmed) {
            None => Err(String::from_str("Workspace not found")),
            Some(j) => {
                self.current_workspace_id = Some(self.workspaces[j].id.clone());
                Ok(duplicate_workspace(&self.workspaces[j]))
            },
        }
    }

    /// Create a personal workspace with the given name, make it current, and
    /// return it. Its identifier and timestamps come from the wall clock.
    pub fn create_workspace(&mut self, name: &str) -> (r: Result<Workspace, String>)
        ensures
            trim_of(name@).len() == 0 ==> r is Err && r->Err_0@ == ("Workspace name is required")@
                && final(self)@ == old(self)@,
            trim_of(name@).len() > 50 ==> r is Err && r->Err_0@ == (
            "Workspace name must be 50 characters or less")@ && final(self)@ == old(self)@,
            workspace_name_ok(name@) ==> r is Ok && {
                let w = r->Ok_0@;
                &&& final(self)@.workspaces == old(self)@.workspaces.push(w)
                &&& final(self)@.current_workspace_id == Some(w.id)
                &&& w.name == trim_of(name@)
                &&& w.workspace_type is Personal
                &&& w.plan_tier is None
                &&& w.team_id is None
                &&& w.created_at_unix == w.updated_at_unix
            },
    {
        let validated = match validate_workspace_name(name) {
            Ok(v) => v,
            Err(e) => {
                return Err(e);
            },
        };
        let now = crate::clock::now_unix();
        let workspace = Workspace {
            id: new_workspace_id(),
            name: validated,
            workspace_type: WorkspaceType::Personal,
            plan_tier: None,
            team_id: None,
            created_at_unix: now,
            updated_at_unix: now,
        };
        self.current_workspace_id = Some(workspace.id.clone());
        let out = duplicate_workspace(&workspace);
        self.workspaces.push(workspace);
        proof {
            assert(ws_views(self.workspaces@) =~= ws_views(self.workspaces@.drop_last()).push(
                self.workspaces@.last()@,
            ));
        }
        Ok(out)
    }

    /// Rename one workspace, identified exactly; its update instant comes
    /// from the wall clock, everything else is untouched.
    pub fn rename_workspace(&mut self, workspace_id: &str, name: &str) -> (r: Result<
        Workspace,
        String,
    >)
        ensures
            trim_of(name@).len() == 0 ==> r is Err && r->Err_0@ == ("Workspace name is required")@
                && final(self)@ == old(self)@,
            trim_of(name@).len() > 50 ==> r is Err && r->Err_0@ == (
            "Workspace name must be 50 characters or less")@ && final(self)@ == old(self)@,
            workspace_name_ok(name@) && !has_workspace_id(old(self)@.workspaces, workspace_id@)
                ==> r is Err && r->Err_0@ == ("Workspace not found")@ && final(self)@ == old(self)@,
            workspace_name_ok(name@) && has_workspace_id(old(self)@.workspaces, workspace_id@)
                ==> r is Ok && final(self)@.current_workspace_id
                == old(self)@.current_workspace_id && exists|j: int|
                {
                    let w = final(self)@.workspaces[j];
                    &&& 0 <= j < old(self)@.workspaces.len()
                    &&& (#[trigger] old(self)@.workspaces[j]).id == workspace_id@
                    &&& (forall|k: int| 0 <= k < j ==> old(self)@.workspaces[k].id != workspace_id@)
                    &&& final(self)@.workspaces == old(self)@.workspaces.update(j, w)
                    &&& w.name == trim_of(name@)
                    &&& w.id == old(self)@.workspaces[j].id
                    &&& w.workspace_type == old(self)@.workspaces[j].workspace_type
                    &&& w.plan_tier == old(self)@.workspaces[j].plan_tier
                    &&& w.team_id == old(self)@.workspaces[j].team_id
                    &&& w.created_at_unix == old(self)@.workspaces[j].created_at_unix
                    &&& r->Ok_0@ == w
                },
    {
        let validated = match validate_workspace_name(name) {
            Ok(v) => v,
            Err(e) => {
                return Err(e);
            },
        };
        match find_workspace_position(&self.workspaces, workspace_id) {
            None => Err(String::from_str("Workspace not found")),
            Some(j) => {
                let mut ws = self.workspaces.remove(j);
                ws.name = validated;
                ws.updated_at_unix = crate::clock::now_unix();
                let out = duplicate_workspace(&ws);
                self.workspaces.insert(j, ws);
                proof {
                    assert(ws_views(self.workspaces@) =~= ws_views(old(self).workspaces@).update(
                        j as int,
                        self.workspaces@[j as int]@,
                    ));
                }
                Ok(out)
            },
        }
    }
}

/// The first workspace with the given identifier, if any.
pub open spec fn find_workspace(workspaces: Seq<WorkspaceView>, id: Seq<char>) -> Option<
    WorkspaceView,
>
    decreases workspaces.len(),
{
    if workspaces.len() == 0 {
        None
    } else if workspaces[0].id == id {
        Some(workspaces[0])
    } else {
        find_workspace(workspaces.drop_first(), id)
    }
}

proof fn lemma_find_workspace_from_index(workspaces: Seq<WorkspaceView>, id: Seq<char>, i: int)
    requires
        0 <= i < workspaces.len(),
        workspaces[i].id == id,
        forall|k: int| 0 <= k < i ==> workspaces[k].id != id,
    ensures
        find_workspace(workspaces, id) == Some(workspaces[i]),
    decreases i,
{
    if i > 0 {
        lemma_find_workspace_from_index(workspaces.drop_first(), id, i - 1);
    }
}

proof fn lemma_find_workspace_none(workspaces: Seq<WorkspaceView>, id: Seq<char>)
    requires
        forall|k: int| 0 <= k < workspaces.len() ==> workspaces[k].id != id,
    ensures
        find_workspace(workspaces, id) is None,
    decreases workspaces.len(),
{
    if workspaces.len() > 0 {
        lemma_find_workspace_none(workspaces.drop_first(), id);
    }
}

impl WorkspaceState {
    /// Delete one workspace. The identifier is trimmed; an empty or unknown
    /// identifier is rejected, and the last personal workspace cannot be
    /// deleted. On success every workspace with the identifier goes, and a
    /// current pointer that referred to it moves to the first remaining
    /// workspace (or empties with the list).
    pub fn delete_workspace(&mut self, workspace_id: &str) -> (r: Result<(), String>)
        ensures
            trim_of(workspace_id@).len() == 0 ==> r is Err && r->Err_0@ == (
            "workspace_id is required")@ && final(self)@ == old(self)@,
            trim_of(workspace_id@).len() > 0 && find_workspace(
                old(self)@.workspaces,
                trim_of(workspace_id@),
            ) is None ==> r is Err && r->Err_0@ == ("Workspace not found")@ && final(self)@ == old(self)@,
            trim_of(workspace_id@).len() > 0 && match find_workspace(
                old(self)@.workspaces,
                trim_of(workspace_id@),
            ) {
                Some(target) => target.workspace_type is Personal && old(self)@.workspaces.filter(
                    |w: WorkspaceView| w.workspace_type is Personal,
                ).len() <= 1,
                None => false,
            } ==> r is Err && r->Err_0@ == ("At least one personal workspace is required")@
                && final(self)@ == old(self)@,
            trim_of(workspace_id@).len() > 0 && match find_workspace(
                old(self)@.workspaces,
                trim_of(workspace_id@),
            ) {
                Some(target) => !(target.workspace_type is Personal
                    && old(self)@.workspaces.filter(
                    |w: WorkspaceView| w.workspace_type is Personal,
                ).len() <= 1),
                None => false,
            } ==> r is Ok && {
                let remaining = old(self)@.workspaces.filter(
                    |w: WorkspaceView| w.id != trim_of(workspace_id@),
                );
                &&& final(self)@.workspaces == remaining
                &&& (old(self)@.current_workspace_id == Some(trim_of(workspace_id@)) ==> final(self)@.current_workspace_id == (if remaining.len() > 0 {
                    Some(remaining[0].id)
                } else {
                    None
                }))
                &&& (old(self)@.current_workspace_id != Some(trim_of(workspace_id@)) ==> final(self)@.current_workspace_id == old(self)@.current_workspace_id)
            },
    {
        let ghost olds = self@.workspaces;
        let trimmed = workspace_id.trim();
        if trimmed.unicode_len() == 0 {
            return Err(String::from_str("workspace_id is required"));
        }
        let j = match find_workspace_position(&self.workspaces, trimmed) {
            None => {
                proof {
                    lemma_find_workspace_none(olds, trimmed@);
                }
                return Err(String::from_str("Workspace not found"));
            },
            Some(j) => j,
        };
        proof {
            lemma_find_workspace_from_index(olds, trimmed@, j as int);
        }
        let target_personal = match self.workspaces[j].workspace_type {
            WorkspaceType::Personal => true,
            WorkspaceType::Team => false,
        };
        if target_personal {
            if self.count_personal() <= 1 {
                return Err(String::from_str("At least one personal workspace is required"));
            }
        }
        let mut kept: Vec<Workspace> = Vec::new();
        let n = self.workspaces.len();
        let mut i: usize = 0;
        proof {
            assert(olds.subrange(0, 0) =~= Seq::<WorkspaceView>::empty());
        }
        while i < n
            invariant
                n == self.workspaces@.len(),
                olds == self@.workspaces,
                trimmed@ == trim_of(workspace_id@),
                0 <= i <= n,
                ws_views(kept@) == olds.subrange(0, i as int).filter(
                    |w: WorkspaceView| w.id != trim_of(workspace_id@),
                ),
            decreases n - i,
        {
            proof {
                assert(olds.subrange(0, i + 1 as int) =~= olds.subrange(0, i as int).push(
                    olds[i as int],
                ));
                crate::seqtools::lemma_filter_push(
                    olds.subrange(0, i as int),
                    olds[i as int],
                    |w: WorkspaceView| w.id != trim_of(workspace_id@),
                );
            }
            if !str_eq(self.workspaces[i].id.as_str(), trimmed) {
                kept.push(duplicate_workspace(&self.workspaces[i]));
                proof {
                    assert(ws_views(kept@) =~= ws_views(kept@.drop_last()).push(kept@.last()@));
                }
            }
            i += 1;
        }
        proof {
            assert(olds.subrange(0, n as int) =~= olds);
        }
        let was_current = match &self.current_workspace_id {
            Some(c) => str_eq(c.as_str(), trimmed),
            None => false,
        };
        self.workspaces = kept;
        if was_current {
            if self.workspaces.len() > 0 {
                self.current_workspace_id = Some(self.workspaces[0].id.clone());
            } else {
                self.current_workspace_id = None;
            }
        }
        Ok(())
    }

    /// How many personal workspaces the state holds.
    fn count_personal(&self) -> (r: usize)
        ensures
            r == self@.workspaces.filter(|w: WorkspaceView| w.workspace_type is Personal).len(),
    {
        let ghost views = self@.workspaces;
        let n = self.workspaces.len();
        let mut cnt: usize = 0;
        let mut i: usize = 0;
        proof {
            assert(views.subrange(0, 0) =~= Seq::<WorkspaceView>::empty());
        }
        while i < n
            invariant
                n == self.workspaces@.len(),
                views == self@.workspaces,
                0 <= i <= n,
                cnt <= i,
                cnt == views.subrange(0, i as int).filter(
                    |w: WorkspaceView| w.workspace_type is Personal,
                ).len(),
            decreases n - i,
        {
            proof {
                assert(views.subrange(0, i + 1 as int) =~= views.subrange(0, i as int).push(
                    views[i as int],
                ));
                crate::seqtools::lemma_filter_push(
                    views.subrange(0, i as int),
                    views[i as int],
                    |w: WorkspaceView| w.workspace_type is Personal,
                );
            }
            let is_personal = match self.workspaces[i].workspace_type {
                WorkspaceType::Personal => true,
                WorkspaceType::Team => false,
            };
            if is_personal {
                cnt += 1;
            }
            i += 1;
        }
        proof {
            assert(views.subrange(0, n as int) =~= views);
        }
        cnt
    }

    /// Create a team workspace with the given name and plan, make it current,
    /// and return the creation result. Its identifier, its timestamps, and a
    /// missing team identifier come from the wall clock.
    pub fn create_team_workspace(
        &mut self,
        name: &str,
        plan_tier: &str,
        team_id: Option<i64>,
    ) -> (r: Result<TeamWorkspaceCreationResult, String>)
        ensures
            trim_of(name@).len() == 0 ==> r is Err && r->Err_0@ == ("Workspace name is required")@
                && final(self)@ == old(self)@,
            trim_of(name@).len() > 50 ==> r is Err && r->Err_0@ == (
            "Workspace name must be 50 characters or less")@ && final(self)@ == old(self)@,
            workspace_name_ok(name@) ==> r is Ok && {
                let res = r->Ok_0;
                &&& res.status@ == ("created")@
                &&& res.message@ == ("팀 워크스페이스가 생성되었습니다.")@
                &&& res.route@ == ("/workspace")@
                &&& res.workspace is Some
                &&& {
                    let w = res.workspace->0@;
                    &&& final(self)@.workspaces == old(self)@.workspaces.push(w)
                    &&& final(self)@.current_workspace_id == Some(w.id)
                    &&& w.name == trim_of(name@)
                    &&& w.workspace_type is Team
                    &&& w.plan_tier == Some(normalize_plan_of(plan_tier@))
                    &&& w.team_id is Some
                    &&& (team_id is Some ==> w.team_id == team_id)
                    &&& w.created_at_unix == w.updated_at_unix
                }
            },
    {
        let validated = match validate_workspace_name(name) {
            Ok(v) => v,
            Err(e) => {
                return Err(e);
            },
        };
        let normalized_plan = normalize_plan(plan_tier);
        let resolved_team_id = match team_id {
            Some(t) => t,
            None => new_team_id(),
        };
        let now = crate::clock::now_unix();
        let workspace = Workspace {
            id: new_workspace_id(),
            name: validated,
            workspace_type: WorkspaceType::Team,
            plan_tier: Some(normalized_plan),
            team_id: Some(resolved_team_id),
            created_at_unix: now,
            updated_at_unix: now,
        };
        self.current_workspace_id = Some(workspace.id.clone());
        let out = duplicate_workspace(&workspace);
        self.workspaces.push(workspace);
        proof {
            assert(ws_views(self.workspaces@) =~= ws_views(self.workspaces@.drop_last()).push(
                self.workspaces@.last()@,
            ));
        }
        Ok(
            TeamWorkspaceCreationResult {
                status: String::from_str("created"),
                message: String::from_str("팀 워크스페이스가 생성되었습니다."),
                route: String::from_str("/workspace"),
                workspace: Some(out),
            },
        )
    }
}

/// Where team-workspace creation leads for the given plan: straight to the
/// creation flow on a paid plan, to the upgrade flow otherwise.
pub fn get_team_workspace_creation_path(plan_tier: String) -> (r: TeamWorkspaceCreationPath)
    ensures
        is_paid_plan_of(plan_tier@) ==> r.status@ == ("allowed")@ && r.route@ == (
        "/workspace/new/team")@ && r.message@ == ("현재 플랜에서 팀 워크스페이스를 생성할 수 있습니다.")@,
        !is_paid_plan_of(plan_tier@) ==> r.status@ == ("upgrade_required")@ && r.route@ == (
        "/billing/upgrade?target=team_workspace")@ && r.message@ == (
        "팀 워크스페이스 생성을 위해 유료 플랜 업그레이드가 필요합니다.")@,
{
    if is_paid_plan(plan_tier.as_str()) {
        TeamWorkspaceCreationPath {
            status: String::from_str("allowed"),
            route: String::from_str("/workspace/new/team"),
            message: String::from_str("현재 플랜에서 팀 워크스페이스를 생성할 수 있습니다."),
        }
    } else {
        TeamWorkspaceCreationPath {
            status: String::from_str("upgrade_required"),
            route: String::from_str("/billing/upgrade?target=team_workspace"),
            message: String::from_str("팀 워크스페이스 생성을 위해 유료 플랜 업그레이드가 필요합니다."),
        }
    }
}

} // verus!
