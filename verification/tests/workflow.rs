use cognito_bot::registry::Registry;
use cognito_bot::relay::{
    begin_relay, classify_callback, decision_code, CallbackRoute, Decision, PendingModeration,
    RelaySession, SessionState,
};

fn registry_with_shop() -> Registry {
    let mut reg = Registry::new();
    reg.register(42, String::from("@shop"));
    reg
}

fn start_session(reg: &Registry, text: &str) -> RelaySession {
    begin_relay(reg, &String::from("@shop"), String::from(text))
        .expect("destination should be registered")
}

#[test]
fn delay_is_always_in_range() {
    for _ in 0..500 {
        let p = PendingModeration::new(1, String::from("x"));
        assert!((3..723).contains(&p.delay_seconds));
    }
}

#[test]
fn begin_relay_samples_delay_in_range() {
    let reg = registry_with_shop();
    for _ in 0..100 {
        let sess = start_session(&reg, "hello");
        assert!((3..723).contains(&sess.item().delay_seconds));
    }
}

#[test]
fn scenario_approved_message_is_published() {
    let mut reg = registry_with_shop();
    // sender submits "hello" and selects "@shop"
    let mut sess = start_session(&reg, "hello");
    assert_eq!(sess.state(), SessionState::Collected);
    assert_eq!(sess.item().moderator_id, 42);
    sess.mark_delayed();
    assert_eq!(sess.state(), SessionState::Delayed);
    // after the delay elapses the moderator receives the text with controls
    sess.on_notify_outcome(&mut reg, true);
    assert_eq!(sess.state(), SessionState::Delayed);
    assert_eq!(sess.item().message_text, "hello");
    // moderator approves; the destination resolves and receives the text
    let target = sess.on_approve(&reg);
    assert_eq!(target, Some(String::from("@shop")));
    assert_eq!(sess.state(), SessionState::Decided(Decision::Approved));
    sess.on_publish_outcome(&mut reg, true);
    assert_eq!(sess.state(), SessionState::Published);
    assert_eq!(reg.error_count(42), Some(0));
}

#[test]
fn scenario_four_publish_failures_evict() {
    let mut reg = registry_with_shop();
    for round in 0u32..4 {
        let mut sess = start_session(&reg, "hello");
        sess.mark_delayed();
        sess.on_notify_outcome(&mut reg, true);
        let target = sess.on_approve(&reg);
        assert_eq!(target, Some(String::from("@shop")));
        sess.on_publish_outcome(&mut reg, false);
        assert_eq!(sess.state(), SessionState::RouteFailed);
        if round < 3 {
            assert_eq!(reg.error_count(42), Some(round + 1));
        }
    }
    // the fourth failure evicted the registration
    assert_eq!(reg.lookup_destination(42), None);
    // a fifth selection of "@shop" is reported as unavailable
    assert!(begin_relay(&reg, &String::from("@shop"), String::from("again")).is_none());
}

#[test]
fn scenario_rejected_message_is_discarded() {
    let mut reg = registry_with_shop();
    let mut sess = start_session(&reg, "spam");
    sess.mark_delayed();
    sess.on_notify_outcome(&mut reg, true);
    sess.on_reject();
    assert_eq!(sess.state(), SessionState::Decided(Decision::Rejected));
    sess.finish_rejection();
    assert_eq!(sess.state(), SessionState::Discarded);
    // the destination received nothing: no counter moved in either direction
    assert_eq!(reg.error_count(42), Some(0));
    assert_eq!(reg.lookup_destination(42), Some(String::from("@shop")));
}

#[test]
fn failed_moderator_notice_is_not_counted() {
    let mut reg = registry_with_shop();
    reg.record_delivery_failure(42);
    assert_eq!(reg.error_count(42), Some(1));
    let mut sess = start_session(&reg, "hello");
    sess.mark_delayed();
    // the private notice to the moderator fails to send
    sess.on_notify_outcome(&mut reg, false);
    assert_eq!(sess.state(), SessionState::RouteFailed);
    // the publish-failure counter stays untouched
    assert_eq!(reg.error_count(42), Some(1));
}

#[test]
fn publish_failure_after_eviction_race_is_tolerated() {
    let mut reg = registry_with_shop();
    let mut sess = start_session(&reg, "hello");
    sess.mark_delayed();
    sess.on_notify_outcome(&mut reg, true);
    // the registration vanishes between notification and the button press
    reg.unregister(42);
    let target = sess.on_approve(&reg);
    assert_eq!(target, None);
    sess.on_publish_outcome(&mut reg, false);
    assert_eq!(sess.state(), SessionState::RouteFailed);
    assert_eq!(reg.lookup_destination(42), None);
}

#[test]
fn stale_selection_is_reported() {
    let reg = Registry::new();
    assert!(begin_relay(&reg, &String::from("@ghost"), String::from("hi")).is_none());
}

#[test]
fn classify_routes_selection() {
    let r = classify_callback(Some(String::from("@shop")), true);
    match r {
        CallbackRoute::Selection(d) => assert_eq!(d, "@shop"),
        _ => panic!("expected a selection route"),
    }
}

#[test]
fn classify_routes_decisions() {
    assert!(matches!(
        classify_callback(Some(String::from("+")), false),
        CallbackRoute::Approve
    ));
    assert!(matches!(
        classify_callback(Some(String::from("-")), false),
        CallbackRoute::Reject
    ));
}

#[test]
fn classify_routes_stale_and_missing() {
    assert!(matches!(
        classify_callback(Some(String::from("anything")), false),
        CallbackRoute::Stale
    ));
    assert!(matches!(classify_callback(None, true), CallbackRoute::NoData));
    assert!(matches!(classify_callback(None, false), CallbackRoute::NoData));
}

#[test]
fn decision_codes_round_trip() {
    assert_eq!(decision_code(Decision::Approved), "+");
    assert_eq!(decision_code(Decision::Rejected), "-");
    assert!(matches!(
        classify_callback(Some(decision_code(Decision::Approved)), false),
        CallbackRoute::Approve
    ));
    assert!(matches!(
        classify_callback(Some(decision_code(Decision::Rejected)), false),
        CallbackRoute::Reject
    ));
}
