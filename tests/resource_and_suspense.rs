use actix_death::gateway::{AsciiDeath, GatewayError};
use actix_death::resource::{Resource, ResourceState};
use actix_death::suspense::{Render, Scope, Side, SuspenseBoundary};

fn resolved_value(s: &ResourceState<String>) -> Option<(u64, String)> {
    match s {
        ResourceState::Resolved { generation, value } => Some((*generation, value.clone())),
        _ => None,
    }
}

#[test]
fn mount_starts_first_load() {
    let mut r: Resource<String> = Resource::new("k".to_string());
    assert!(matches!(r.read(), ResourceState::Idle));
    let q = r.mount().unwrap();
    assert_eq!(q.generation, 1);
    assert_eq!(q.key, "k");
    assert!(matches!(r.read(), ResourceState::Pending { generation: 1 }));
    assert!(r.mount().is_none());
    assert!(r.settle(1, Ok("v".to_string())));
    assert_eq!(resolved_value(r.read()), Some((1, "v".to_string())));
}

#[test]
fn rapid_changes_only_latest_observed() {
    let mut r: Resource<String> = Resource::new("key0".to_string());
    r.mount().unwrap();
    let q1 = r.set_source("key1".to_string()).unwrap();
    let q2 = r.set_source("key2".to_string()).unwrap();
    assert!(q2.generation > q1.generation);
    assert_eq!(q2.key, "key2");
    // key2 settles first, key1 arrives late
    assert!(r.settle(q2.generation, Ok("from key2".to_string())));
    assert!(!r.settle(q1.generation, Ok("from key1".to_string())));
    assert_eq!(resolved_value(r.read()), Some((q2.generation, "from key2".to_string())));
}

#[test]
fn rapid_changes_late_first_discarded() {
    let mut r: Resource<String> = Resource::new("key0".to_string());
    let q1 = r.set_source("key1".to_string()).unwrap();
    let q2 = r.set_source("key2".to_string()).unwrap();
    // key1 settles while key2 is still in flight
    assert!(!r.settle(q1.generation, Err(GatewayError::Transport("x".to_string()))));
    assert!(matches!(r.read(), ResourceState::Pending { generation } if *generation == q2.generation));
    assert!(r.settle(q2.generation, Ok("two".to_string())));
    assert_eq!(resolved_value(r.read()), Some((q2.generation, "two".to_string())));
}

#[test]
fn same_key_does_not_reload() {
    let mut r: Resource<String> = Resource::new("a".to_string());
    r.mount().unwrap();
    assert!(r.set_source("a".to_string()).is_none());
    assert_eq!(r.generation(), 1);
}

#[test]
fn error_is_terminal_until_source_changes() {
    let mut r: Resource<String> = Resource::new("a".to_string());
    let q = r.mount().unwrap();
    assert!(r.settle(q.generation, Err(GatewayError::Execution("boom".to_string()))));
    assert!(matches!(r.read(), ResourceState::Errored { generation: 1, .. }));
    assert!(!r.settle(q.generation, Ok("again".to_string())));
    let q2 = r.set_source("b".to_string()).unwrap();
    assert_eq!(q2.generation, 2);
    assert!(matches!(r.read(), ResourceState::Pending { generation: 2 }));
}

#[test]
fn disposed_resource_never_changes() {
    let mut r: Resource<String> = Resource::new("a".to_string());
    let q = r.mount().unwrap();
    r.dispose();
    assert!(r.is_disposed());
    assert!(!r.settle(q.generation, Ok("late".to_string())));
    assert!(matches!(r.read(), ResourceState::Pending { generation: 1 }));
    assert!(r.set_source("b".to_string()).is_none());
    assert!(!r.seed(5, Ok("seed".to_string())));
    assert_eq!(r.key(), "a");
    assert_eq!(r.generation(), 1);
}

#[test]
fn scope_dispose_stops_all() {
    let mut s: Scope<String> = Scope::new();
    let a = s.create("a".to_string());
    let b = s.create("b".to_string());
    let qa = s.mount(a).unwrap();
    let qb = s.mount(b).unwrap();
    s.dispose();
    assert!(!s.settle(a, qa.generation, Ok("x".to_string())));
    assert!(!s.settle(b, qb.generation, Ok("y".to_string())));
    assert!(s.resource(a).is_disposed() && s.resource(b).is_disposed());
}

#[test]
fn unknown_id_is_ignored() {
    let mut s: Scope<String> = Scope::new();
    assert!(s.mount(3).is_none());
    assert!(s.set_source(3, "k".to_string()).is_none());
    assert!(!s.settle(3, 1, Ok("x".to_string())));
    assert_eq!(s.len(), 0);
}

#[test]
fn pending_count_follows_states() {
    let mut s: Scope<AsciiDeath> = Scope::new();
    let a = s.create("a".to_string());
    let b = s.create("b".to_string());
    let c = s.create("c".to_string());
    let mut boundary = SuspenseBoundary::new();
    boundary.register(a);
    boundary.register(b);
    boundary.register(a);
    boundary.register(99);
    assert_eq!(boundary.pending_count(&s), 0);
    let qa = s.mount(a).unwrap();
    let qb = s.mount(b).unwrap();
    s.mount(c).unwrap();
    assert_eq!(boundary.pending_count(&s), 2);
    assert_eq!(boundary.render(&s, Side::Displaying), Render::Fallback);
    assert_eq!(boundary.render(&s, Side::Producing), Render::Wait);
    let d = AsciiDeath { killer: "€a".to_string(), after: true };
    assert!(s.settle(a, qa.generation, Ok(d)));
    assert_eq!(boundary.pending_count(&s), 1);
    assert!(s.settle(b, qb.generation, Err(GatewayError::Transport("t".to_string()))));
    assert_eq!(boundary.pending_count(&s), 0);
    assert_eq!(boundary.render(&s, Side::Displaying), Render::Children);
    assert_eq!(boundary.render(&s, Side::Producing), Render::Children);
    // c is pending but registered elsewhere
    let mut inner = SuspenseBoundary::new();
    inner.register(c);
    assert_eq!(inner.pending_count(&s), 1);
}
