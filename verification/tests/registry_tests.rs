use axis_core::registry::{ConversationState, Registry};

#[test]
fn empty_registry_has_nothing() {
    let reg = Registry::new();
    assert!(reg.get(1).is_none());
    assert!(!reg.has_active(1, 10));
}

#[test]
fn start_records_owner_and_time() {
    let mut reg = Registry::new();
    reg.start(1, 10, 500);
    let st = reg.get(1).unwrap();
    assert_eq!(st.user_id, 10);
    assert_eq!(st.last_activity, 500);
    assert!(reg.has_active(1, 10));
    assert!(!reg.has_active(1, 11));
    assert!(!reg.has_active(2, 10));
}

#[test]
fn start_replaces_prior_owner() {
    let mut reg = Registry::new();
    reg.start(1, 10, 500);
    reg.start(1, 11, 600);
    let st = reg.get(1).unwrap();
    assert_eq!(st.user_id, 11);
    assert_eq!(st.last_activity, 600);
}

#[test]
fn touch_refreshes_owner() {
    let mut reg = Registry::new();
    reg.start(1, 10, 500);
    assert!(reg.touch(1, 10, 900));
    let st = reg.get(1).unwrap();
    assert_eq!(st.user_id, 10);
    assert_eq!(st.last_activity, 900);
}

#[test]
fn touch_mismatch_evicts() {
    let mut reg = Registry::new();
    reg.start(1, 10, 500);
    assert!(!reg.touch(1, 11, 900));
    assert!(reg.get(1).is_none());
}

#[test]
fn touch_empty_channel_is_noop() {
    let mut reg = Registry::new();
    assert!(!reg.touch(1, 10, 900));
    assert!(reg.get(1).is_none());
}

#[test]
fn end_requires_ownership() {
    let mut reg = Registry::new();
    reg.start(1, 10, 500);
    assert!(!reg.end(1, 11));
    assert!(reg.has_active(1, 10));
    assert!(reg.end(1, 10));
    assert!(reg.get(1).is_none());
    assert!(!reg.end(1, 10));
}

#[test]
fn evict_removes_any_owner() {
    let mut reg = Registry::new();
    reg.start(1, 10, 500);
    reg.evict(1);
    assert!(reg.get(1).is_none());
}

#[test]
fn sweep_removes_exactly_the_expired() {
    let mut reg = Registry::new();
    reg.start(1, 10, 100);
    reg.start(2, 11, 200);
    reg.start(3, 12, 299);
    reg.sweep(300, 150);
    assert!(reg.get(1).is_none());
    let st2 = reg.get(2).unwrap();
    assert_eq!(st2.user_id, 11);
    assert_eq!(st2.last_activity, 200);
    let st3 = reg.get(3).unwrap();
    assert_eq!(st3.user_id, 12);
}

#[test]
fn sweep_boundary_is_strict() {
    let mut reg = Registry::new();
    reg.start(1, 10, 100);
    reg.sweep(250, 150);
    assert!(reg.get(1).is_some());
    reg.sweep(251, 150);
    assert!(reg.get(1).is_none());
}

#[test]
fn conversation_state_expiry() {
    let mut st = ConversationState::new(10, 100);
    assert_eq!(st.user_id, 10);
    assert_eq!(st.last_activity, 100);
    assert!(!st.is_expired(250, 150));
    assert!(st.is_expired(251, 150));
    assert!(!st.is_expired(50, 150));
    st.update_activity(400);
    assert_eq!(st.last_activity, 400);
    assert!(!st.is_expired(550, 150));
}
