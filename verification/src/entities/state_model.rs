//! Machine-readable state-model tables: per-entity lifecycle states, legal
//! transitions and guard rules, derived from the status enums and the
//! `guard_*` methods of the entities. Data only.

use vstd::prelude::*;

use super::project::{ProjectId, ProjectStatus};
use super::surface::SurfaceStatus;
use super::workspace::{WorkspaceId, WorkspaceStatus};

verus! {

/// A legal lifecycle transition, keyed by the operation that performs it.
#[derive(Debug, Clone, Copy, PartialEq, Eq)]
pub struct Transition {
    pub action: &'static str,
    pub from: &'static str,
    pub to: &'static str,
}

/// A guard applied by an operation: the rule id and the entity fields a client
/// needs to evaluate it.
#[derive(Debug, Clone, Copy, PartialEq, Eq)]
pub struct GuardRule {
    pub action: &'static str,
    pub rule: &'static str,
    pub fields: &'static [&'static str],
}

/// One entity's state-model tables.
#[derive(Debug, Clone)]
pub struct EntityStateModel {
    pub entity: &'static str,
    pub states: Vec<&'static str>,
    pub transitions: Vec<Transition>,
    pub guards: Vec<GuardRule>,
}

/// The well-known ids that guard rules compare against.
#[derive(Debug, Clone)]
pub struct WellKnownIds {
    pub default_workspace: &'static str,
    pub unfiled_project: &'static str,
}

/// The full contract: every entity's tables plus the well-known ids.
#[derive(Debug, Clone)]
pub struct StateModel {
    pub well_known_ids: WellKnownIds,
    pub entities: Vec<EntityStateModel>,
}

/// The names in a list of state names.
pub open spec fn names(v: Seq<&'static str>) -> Seq<Seq<char>> {
    v.map_values(|s: &'static str| s@)
}

/// `t` is the transition `action: from -> to`.
pub open spec fn is_transition(t: Transition, action: Seq<char>, from: Seq<char>, to: Seq<char>) -> bool {
    &&& t.action@ == action
    &&& t.from@ == from
    &&& t.to@ == to
}

/// `g` is the guard `action: rule`, reading the one field `field`.
pub open spec fn is_guard(g: GuardRule, action: Seq<char>, rule: Seq<char>, field: Seq<char>) -> bool {
    &&& g.action@ == action
    &&& g.rule@ == rule
    &&& g.fields@.len() == 1
    &&& g.fields@[0]@ == field
}

/// The two states of a container entity.
pub open spec fn container_states() -> Seq<Seq<char>> {
    seq!["active"@, "archived"@]
}

/// The archive/restore transitions of a container entity.
pub open spec fn container_transitions(ts: Seq<Transition>) -> bool {
    &&& ts.len() == 2
    &&& is_transition(ts[0], "archive"@, "active"@, "archived"@)
    &&& is_transition(ts[1], "restore"@, "archived"@, "active"@)
}

/// The workspace tables.
pub open spec fn workspace_tables(e: EntityStateModel) -> bool {
    &&& e.entity@ == "workspace"@
    &&& names(e.states@) == container_states()
    &&& container_transitions(e.transitions@)
    &&& e.guards@.len() == 4
    &&& is_guard(e.guards@[0], "archive"@, "not-default"@, "id"@)
    &&& is_guard(e.guards@[1], "archive"@, "active"@, "status"@)
    &&& is_guard(e.guards@[2], "discard"@, "not-default"@, "id"@)
    &&& is_guard(e.guards@[3], "restore"@, "archived"@, "status"@)
}

/// The project tables.
pub open spec fn project_tables(e: EntityStateModel) -> bool {
    &&& e.entity@ == "project"@
    &&& names(e.states@) == container_states()
    &&& container_transitions(e.transitions@)
    &&& e.guards@.len() == 5
    &&& is_guard(e.guards@[0], "archive"@, "not-unfiled"@, "id"@)
    &&& is_guard(e.guards@[1], "archive"@, "active"@, "status"@)
    &&& is_guard(e.guards@[2], "discard"@, "not-unfiled"@, "id"@)
    &&& is_guard(e.guards@[3], "move"@, "not-unfiled"@, "id"@)
    &&& is_guard(e.guards@[4], "restore"@, "archived"@, "status"@)
}

/// The session tables.
pub open spec fn session_tables(e: EntityStateModel) -> bool {
    &&& e.entity@ == "session"@
    &&& names(e.states@) == container_states()
    &&& container_transitions(e.transitions@)
    &&& e.guards@.len() == 0
}

/// The surface tables.
pub open spec fn surface_tables(e: EntityStateModel) -> bool {
    &&& e.entity@ == "surface"@
    &&& names(e.states@) == seq!["pending"@, "live"@, "failed"@, "idle"@]
    &&& e.transitions@.len() == 7
    &&& is_transition(e.transitions@[0], "spawn"@, "pending"@, "live"@)
    &&& is_transition(e.transitions@[1], "spawn"@, "pending"@, "failed"@)
    &&& is_transition(e.transitions@[2], "resume"@, "idle"@, "live"@)
    &&& is_transition(e.transitions@[3], "resume"@, "failed"@, "live"@)
    &&& is_transition(e.transitions@[4], "stop"@, "live"@, "idle"@)
    &&& is_transition(e.transitions@[5], "reconcile"@, "live"@, "failed"@)
    &&& is_transition(e.transitions@[6], "reconcile"@, "pending"@, "failed"@)
    &&& e.guards@.len() == 0
}

/// Every transition of `e` starts and ends in a state `e` declares.
pub open spec fn endpoints_declared(e: EntityStateModel) -> bool {
    forall|j: int|
        0 <= j < e.transitions@.len() ==> names(e.states@).contains(
            (#[trigger] e.transitions@[j]).from@,
        ) && names(e.states@).contains(e.transitions@[j].to@)
}

fn transition(action: &'static str, from: &'static str, to: &'static str) -> (t: Transition)
    ensures
        t.action == action,
        t.from == from,
        t.to == to,
{
    Transition { action, from, to }
}

fn guard(action: &'static str, rule: &'static str, fields: &'static [&'static str]) -> (g: GuardRule)
    ensures
        g.action == action,
        g.rule == rule,
        g.fields == fields,
{
    GuardRule { action, rule, fields }
}

fn container_states_of(active: &'static str, archived: &'static str) -> (v: Vec<&'static str>)
    ensures
        v@ == seq![active, archived],
{
    let mut v: Vec<&'static str> = Vec::new();
    v.push(active);
    v.push(archived);
    v
}

fn archive_restore() -> (v: Vec<Transition>)
    ensures
        container_transitions(v@),
{
    let mut v: Vec<Transition> = Vec::new();
    v.push(transition("archive", "active", "archived"));
    v.push(transition("restore", "archived", "active"));
    v
}

/// Build the contract tables. State names come from the status enums' `as_str`
/// values; actions and guard rules mirror the entities' guards.
pub fn state_model() -> (m: StateModel)
    ensures
        m.well_known_ids.default_workspace@ == WorkspaceId::DEFAULT@,
        m.well_known_ids.unfiled_project@ == ProjectId::UNFILED@,
        m.entities@.len() == 4,
        workspace_tables(m.entities@[0]),
        project_tables(m.entities@[1]),
        session_tables(m.entities@[2]),
        surface_tables(m.entities@[3]),
        forall|i: int| 0 <= i < m.entities@.len() ==> endpoints_declared(#[trigger] m.entities@[i]),
{
    let mut ws_guards: Vec<GuardRule> = Vec::new();
    ws_guards.push(guard("archive", "not-default", &["id"]));
    ws_guards.push(guard("archive", "active", &["status"]));
    ws_guards.push(guard("discard", "not-default", &["id"]));
    ws_guards.push(guard("restore", "archived", &["status"]));
    let workspace = EntityStateModel {
        entity: "workspace",
        states: container_states_of(WorkspaceStatus::Active.as_str(), WorkspaceStatus::Archived.as_str()),
        transitions: archive_restore(),
        guards: ws_guards,
    };
    let mut proj_guards: Vec<GuardRule> = Vec::new();
    proj_guards.push(guard("archive", "not-unfiled", &["id"]));
    proj_guards.push(guard("archive", "active", &["status"]));
    proj_guards.push(guard("discard", "not-unfiled", &["id"]));
    proj_guards.push(guard("move", "not-unfiled", &["id"]));
    proj_guards.push(guard("restore", "archived", &["status"]));
    let project = EntityStateModel {
        entity: "project",
        states: container_states_of(ProjectStatus::Active.as_str(), ProjectStatus::Archived.as_str()),
        transitions: archive_restore(),
        guards: proj_guards,
    };
    // The session status has no stored-name method; its wire values are named here.
    let session = EntityStateModel {
        entity: "session",
        states: container_states_of("active", "archived"),
        transitions: archive_restore(),
        guards: Vec::new(),
    };
    let mut surf_states: Vec<&'static str> = Vec::new();
    surf_states.push(SurfaceStatus::Pending.as_str());
    surf_states.push(SurfaceStatus::Live.as_str());
    surf_states.push(SurfaceStatus::Failed.as_str());
    surf_states.push(SurfaceStatus::Idle.as_str());
    let mut surf_transitions: Vec<Transition> = Vec::new();
    surf_transitions.push(transition("spawn", "pending", "live"));
    surf_transitions.push(transition("spawn", "pending", "failed"));
    surf_transitions.push(transition("resume", "idle", "live"));
    surf_transitions.push(transition("resume", "failed", "live"));
    surf_transitions.push(transition("stop", "live", "idle"));
    surf_transitions.push(transition("reconcile", "live", "failed"));
    surf_transitions.push(transition("reconcile", "pending", "failed"));
    let surface = EntityStateModel {
        entity: "surface",
        states: surf_states,
        transitions: surf_transitions,
        guards: Vec::new(),
    };
    let mut entities: Vec<EntityStateModel> = Vec::new();
    entities.push(workspace);
    entities.push(project);
    entities.push(session);
    entities.push(surface);
    let m = StateModel {
        well_known_ids: WellKnownIds {
            default_workspace: WorkspaceId::DEFAULT,
            unfiled_project: ProjectId::UNFILED,
        },
        entities,
    };
    proof {
        let es = m.entities@;
        assert(names(es[0].states@) =~= container_states());
        assert(names(es[1].states@) =~= container_states());
        assert(names(es[2].states@) =~= container_states());
        assert(names(es[3].states@) =~= seq!["pending"@, "live"@, "failed"@, "idle"@]);
        let cs = container_states();
        assert(cs[0] == "active"@ && cs[1] == "archived"@);
        assert(cs.contains("active"@));
        assert(cs.contains("archived"@));
        let ss = seq!["pending"@, "live"@, "failed"@, "idle"@];
        assert(ss[0] == "pending"@ && ss[1] == "live"@ && ss[2] == "failed"@ && ss[3] == "idle"@);
        assert(ss.contains("pending"@));
        assert(ss.contains("live"@));
        assert(ss.contains("failed"@));
        assert(ss.contains("idle"@));
        assert forall|i: int| 0 <= i < es.len() implies endpoints_declared(#[trigger] es[i]) by {
            if i == 3 {
                assert forall|j: int| 0 <= j < es[3].transitions@.len() implies names(
                    es[3].states@,
                ).contains((#[trigger] es[3].transitions@[j]).from@) && names(es[3].states@).contains(
                    es[3].transitions@[j].to@,
                ) by {
                    assert(j == 0 || j == 1 || j == 2 || j == 3 || j == 4 || j == 5 || j == 6);
                }
            } else {
                assert forall|j: int| 0 <= j < es[i].transitions@.len() implies names(
                    es[i].states@,
                ).contains((#[trigger] es[i].transitions@[j]).from@) && names(es[i].states@).contains(
                    es[i].transitions@[j].to@,
                ) by {
                    assert(j == 0 || j == 1);
                }
            }
        }
    }
    m
}

} // verus!
