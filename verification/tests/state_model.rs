use orchestrator::entities::state_model::state_model;
use orchestrator::entities::{ProjectId, WorkspaceId};

#[test]
fn every_transition_endpoint_is_a_declared_state() {
    for entity in state_model().entities {
        for t in &entity.transitions {
            assert!(
                entity.states.contains(&t.from) && entity.states.contains(&t.to),
                "{}: transition {}:{}->{} references an undeclared state",
                entity.entity,
                t.action,
                t.from,
                t.to
            );
        }
    }
}

#[test]
fn guard_rules_reference_well_known_ids_consistently() {
    let model = state_model();
    assert_eq!(model.well_known_ids.default_workspace, WorkspaceId::DEFAULT);
    assert_eq!(model.well_known_ids.unfiled_project, ProjectId::UNFILED);
}

#[test]
fn state_model_lists_the_four_entities_in_order() {
    let model = state_model();
    let names: Vec<&str> = model.entities.iter().map(|e| e.entity).collect();
    assert_eq!(names, vec!["workspace", "project", "session", "surface"]);
    assert_eq!(model.entities[0].guards.len(), 4);
    assert_eq!(model.entities[1].guards[3].rule, "not-unfiled");
    assert_eq!(model.entities[1].guards[3].fields, &["id"]);
    assert_eq!(model.entities[3].states, vec!["pending", "live", "failed", "idle"]);
    assert_eq!(model.entities[3].transitions.len(), 7);
}
