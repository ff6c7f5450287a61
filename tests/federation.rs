use plume_instance::broadcast::{ban, broadcast_targets, Actor};
use plume_instance::federation::{
    activity_kind, shared_inbox, ActivityKind, Delivery, EntityCache, EntityKind, InboxError,
};

fn delivery(kind: &str, url: &str) -> Delivery {
    Delivery {
        activity_type: kind.to_string(),
        object_url: url.to_string(),
        object_kind: EntityKind::Post,
    }
}

#[test]
fn materializing_twice_keeps_one_row() {
    let mut cache = EntityCache::new();
    let url = "https://remote.example/posts/42".to_string();
    assert!(cache.materialize(url.clone(), EntityKind::Post));
    assert!(!cache.materialize(url.clone(), EntityKind::Post));
    assert_eq!(cache.rows.len(), 1);
    assert_eq!(cache.find(&url), Some(0));
    assert_eq!(cache.find(&"https://remote.example/posts/43".to_string()), None);
}

#[test]
fn tampered_delivery_is_rejected_without_change() {
    let mut cache = EntityCache::new();
    cache.materialize("https://a.example/1".to_string(), EntityKind::User);
    let before = cache.rows.clone();
    let r = shared_inbox(&mut cache, false, &delivery("Create", "https://a.example/2"));
    assert_eq!(r, Err(InboxError::SignatureInvalid));
    assert_eq!(cache.rows, before);
    let r = shared_inbox(&mut cache, false, &delivery("Delete", "https://a.example/1"));
    assert_eq!(r, Err(InboxError::SignatureInvalid));
    assert_eq!(cache.rows, before);
}

#[test]
fn unsupported_activity_is_rejected() {
    let mut cache = EntityCache::new();
    let r = shared_inbox(&mut cache, true, &delivery("Travel", "https://a.example/2"));
    assert_eq!(r, Err(InboxError::UnsupportedActivity));
    assert!(cache.rows.is_empty());
}

#[test]
fn replayed_create_adds_one_entity() {
    let mut cache = EntityCache::new();
    let d = delivery("Create", "https://a.example/posts/9");
    assert_eq!(shared_inbox(&mut cache, true, &d), Ok(ActivityKind::Create));
    let once = cache.rows.clone();
    assert_eq!(shared_inbox(&mut cache, true, &d), Ok(ActivityKind::Create));
    assert_eq!(cache.rows, once);
    assert_eq!(cache.rows.len(), 1);
}

#[test]
fn replayed_delete_removes_once() {
    let mut cache = EntityCache::new();
    cache.materialize("https://a.example/1".to_string(), EntityKind::Post);
    cache.materialize("https://a.example/2".to_string(), EntityKind::Comment);
    let d = delivery("Delete", "https://a.example/1");
    assert_eq!(shared_inbox(&mut cache, true, &d), Ok(ActivityKind::Delete));
    assert_eq!(cache.rows.len(), 1);
    assert_eq!(cache.rows[0].url, "https://a.example/2");
    assert_eq!(shared_inbox(&mut cache, true, &d), Ok(ActivityKind::Delete));
    assert_eq!(cache.rows.len(), 1);
}

#[test]
fn like_leaves_cache_alone() {
    let mut cache = EntityCache::new();
    let d = delivery("Like", "https://a.example/1");
    assert_eq!(shared_inbox(&mut cache, true, &d), Ok(ActivityKind::Like));
    assert!(cache.rows.is_empty());
}

#[test]
fn activity_kinds_are_read_exactly() {
    assert_eq!(activity_kind("Announce"), Some(ActivityKind::Announce));
    assert_eq!(activity_kind("Follow"), Some(ActivityKind::Follow));
    assert_eq!(activity_kind("Accept"), Some(ActivityKind::Accept));
    assert_eq!(activity_kind("Reject"), Some(ActivityKind::Reject));
    assert_eq!(activity_kind("Update"), Some(ActivityKind::Update));
    assert_eq!(activity_kind("create"), None);
    assert_eq!(activity_kind(""), None);
}

fn a(id: i32, instance: i32) -> Actor {
    Actor { id, instance }
}

#[test]
fn one_delete_per_remote_instance() {
    let known = vec![a(10, 2), a(11, 3), a(12, 2), a(13, 1), a(14, 4), a(15, 3)];
    let t = ban(1, Some(1), &known).unwrap();
    assert_eq!(t, vec![a(10, 2), a(11, 3), a(14, 4)]);
    assert_eq!(broadcast_targets(&known, 1), t);
}

#[test]
fn remote_user_ban_sends_nothing() {
    let known = vec![a(10, 2), a(11, 3)];
    assert_eq!(ban(2, Some(1), &known), None);
    assert_eq!(ban(1, None, &known), None);
}

#[test]
fn local_ban_with_nobody_known_sends_nothing() {
    assert_eq!(ban(1, Some(1), &vec![]), Some(vec![]));
    assert_eq!(ban(1, Some(1), &vec![a(3, 1)]), Some(vec![]));
}
