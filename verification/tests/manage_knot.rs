//! Knots are created, updated and deleted in a loom.

use knot::entities::{Knot, KnotId, Loom, LoomId, PromptTemplate};
use knot::errors::PortError;
use knot::store::LoomStore;
use knot::usecases::{KnotAction, ManageKnot};

fn build_knot(id: &str) -> Knot {
    Knot {
        id: knot_id(id),
        agent_profile_ref: "default".to_string(),
        prompt_template: PromptTemplate { instructions: "check it".to_string() },
        strand_dir: "strands".to_string(),
        git_versioned: true,
    }
}

fn loom_id(id: &str) -> LoomId {
    LoomId(id.to_string())
}

fn knot_id(id: &str) -> KnotId {
    KnotId(id.to_string())
}

/// The use case over one loom, `test`, with these knots.
fn managing(knots: &[&str]) -> ManageKnot {
    let mut store = LoomStore::new();
    store.register(Loom {
        id: loom_id("test"),
        knots: knots.iter().map(|id| build_knot(id)).collect(),
    });
    ManageKnot::new(store)
}

fn assert_save_failed(result: Result<(), PortError>, expected: &str) {
    match result.unwrap_err() {
        PortError::LoomSaveFailed(msg) => assert!(msg.contains(expected), "got: {msg}"),
        other => panic!("Expected LoomSaveFailed, got {other:?}"),
    }
}

fn assert_loom_not_found(result: Result<(), PortError>) {
    match result.unwrap_err() {
        PortError::LoomNotFound(id) => assert_eq!(id, loom_id("unknown")),
        other => panic!("Expected LoomNotFound, got {other:?}"),
    }
}

#[test]
fn manage_knot_create() {
    let mut use_case = managing(&["k1"]);
    let result = use_case
        .execute(KnotAction::Create { loom_id: loom_id("test"), knot: build_knot("k2") });
    assert!(result.is_ok());

    let updated = use_case.store.get(&loom_id("test")).unwrap();
    assert_eq!(updated.knots.len(), 2);
    let k = updated.knots.iter().find(|k| k.id == knot_id("k2")).unwrap();
    assert_eq!(k.agent_profile_ref, "default");
    assert_eq!(k.strand_dir, "strands");
}

#[test]
fn manage_knot_create_loom_not_found() {
    let mut use_case = ManageKnot::new(LoomStore::new());
    assert_loom_not_found(
        use_case
            .execute(KnotAction::Create { loom_id: loom_id("unknown"), knot: build_knot("k1") }),
    );
}

#[test]
fn manage_knot_create_duplicate() {
    let mut use_case = managing(&["k1"]);
    let result = use_case
        .execute(KnotAction::Create { loom_id: loom_id("test"), knot: build_knot("k1") });
    assert_save_failed(result, "already exists");
}

#[test]
fn manage_knot_update() {
    let mut use_case = managing(&["k1", "k2"]);
    let mut updated_knot = build_knot("k1");
    updated_knot.agent_profile_ref = "slow".to_string();
    updated_knot.prompt_template.instructions = "new instructions".to_string();

    let result = use_case
        .execute(KnotAction::Update { loom_id: loom_id("test"), knot: updated_knot });
    assert!(result.is_ok());

    let loom = use_case.store.get(&loom_id("test")).unwrap();
    assert_eq!(loom.knots.len(), 2);
    let k1 = loom.knots.iter().find(|k| k.id == knot_id("k1")).unwrap();
    assert_eq!(k1.agent_profile_ref, "slow");
    assert_eq!(k1.prompt_template.instructions, "new instructions");
    let k2 = loom.knots.iter().find(|k| k.id == knot_id("k2")).unwrap();
    assert_eq!(k2.agent_profile_ref, "default");
}

#[test]
fn manage_knot_update_not_found() {
    let mut use_case = managing(&["k1"]);
    let result = use_case
        .execute(KnotAction::Update { loom_id: loom_id("test"), knot: build_knot("k_unknown") });
    assert_save_failed(result, "not found");
}

#[test]
fn manage_knot_delete() {
    let mut use_case = managing(&["k1", "k2", "k3"]);
    let result = use_case
        .execute(KnotAction::Delete { loom_id: loom_id("test"), knot_id: knot_id("k2") });
    assert!(result.is_ok());

    let updated = use_case.store.get(&loom_id("test")).unwrap();
    assert_eq!(updated.knots.len(), 2);
    let ids: Vec<_> = updated.knots.iter().map(|k| k.id.0.as_str()).collect();
    assert!(ids.contains(&"k1"));
    assert!(ids.contains(&"k3"));
    assert!(!ids.contains(&"k2"));
}

#[test]
fn manage_knot_delete_not_found() {
    let mut use_case = managing(&["k1"]);
    let result = use_case
        .execute(KnotAction::Delete { loom_id: loom_id("test"), knot_id: knot_id("k_unknown") });
    assert_save_failed(result, "not found");
}

#[test]
fn manage_knot_delete_loom_not_found() {
    let mut use_case = ManageKnot::new(LoomStore::new());
    assert_loom_not_found(
        use_case
            .execute(KnotAction::Delete { loom_id: loom_id("unknown"), knot_id: knot_id("k1") }),
    );
}

#[test]
fn update_in_an_unknown_loom_fails() {
    let mut use_case = ManageKnot::new(LoomStore::new());
    assert_loom_not_found(
        use_case
            .execute(KnotAction::Update { loom_id: loom_id("unknown"), knot: build_knot("k1") }),
    );
}

#[test]
fn delete_undoes_create() {
    let mut use_case = managing(&["k1"]);
    let before = use_case.store.list();
    let create = KnotAction::Create { loom_id: loom_id("test"), knot: build_knot("k2") };
    assert!(use_case.execute(create).is_ok());
    assert_ne!(use_case.store.list(), before);
    let delete = KnotAction::Delete { loom_id: loom_id("test"), knot_id: knot_id("k2") };
    assert!(use_case.execute(delete).is_ok());
    assert_eq!(use_case.store.list(), before);
}

#[test]
fn a_failed_action_changes_nothing() {
    let mut use_case = managing(&["k1"]);
    let before = use_case.store.list();
    let delete = KnotAction::Delete { loom_id: loom_id("test"), knot_id: knot_id("k9") };
    assert!(use_case.execute(delete).is_err());
    assert_eq!(use_case.store.list(), before);
}
