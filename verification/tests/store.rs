//! The in-memory loom registry.

use knot::entities::{Knot, KnotId, Loom, LoomId, PromptTemplate};
use knot::store::LoomStore;

fn build_loom(id: LoomId) -> Loom {
    Loom {
        id,
        knots: vec![Knot {
            id: KnotId("k1".to_string()),
            agent_profile_ref: "fast".to_string(),
            prompt_template: PromptTemplate { instructions: "check it".to_string() },
            strand_dir: "strands".to_string(),
            git_versioned: false,
        }],
    }
}

#[test]
fn register_loom() {
    let mut store = LoomStore::new();
    let loom = build_loom(LoomId("prds".to_string()));

    store.register(loom.clone());

    let listed = store.list();
    assert_eq!(listed.len(), 1);
    assert_eq!(listed[0].id, LoomId("prds".to_string()));
}

#[test]
fn list_looms() {
    let mut store = LoomStore::new();

    let loom1 = build_loom(LoomId("prds".to_string()));
    let loom2 = build_loom(LoomId("docs".to_string()));

    store.register(loom1);
    store.register(loom2);

    let listed = store.list();
    assert_eq!(listed.len(), 2);

    let ids: Vec<_> = listed.iter().map(|l| &l.id).collect();
    assert!(ids.contains(&&LoomId("prds".to_string())));
    assert!(ids.contains(&&LoomId("docs".to_string())));
}

#[test]
fn get_loom_by_id() {
    let mut store = LoomStore::new();
    let loom = build_loom(LoomId("prds".to_string()));

    store.register(loom.clone());

    let found = store.get(&LoomId("prds".to_string()));
    assert!(found.is_some());
    assert_eq!(found.unwrap().id, LoomId("prds".to_string()));
}

#[test]
fn get_nonexistent_returns_none() {
    let store = LoomStore::new();

    let found = store.get(&LoomId("unknown".to_string()));
    assert!(found.is_none());
}

#[test]
fn unregister_loom() {
    let mut store = LoomStore::new();
    let loom = build_loom(LoomId("prds".to_string()));

    store.register(loom);
    assert!(store.get(&LoomId("prds".to_string())).is_some());

    let removed = store.unregister(&LoomId("prds".to_string()));
    assert!(removed);

    assert!(store.get(&LoomId("prds".to_string())).is_none());
    assert!(store.list().is_empty());
}

#[test]
fn registering_again_replaces_the_loom() {
    let mut store = LoomStore::default();
    store.register(build_loom(LoomId("prds".to_string())));
    store.register(Loom { id: LoomId("prds".to_string()), knots: vec![] });

    assert_eq!(store.list().len(), 1);
    assert!(store.get(&LoomId("prds".to_string())).unwrap().knots.is_empty());
}

#[test]
fn unregistering_an_unknown_loom_changes_nothing() {
    let mut store = LoomStore::new();
    store.register(build_loom(LoomId("prds".to_string())));

    assert!(!store.unregister(&LoomId("docs".to_string())));
    assert_eq!(store.list().len(), 1);
}
