use zero2prod::handlers::{health_check, subscribe_reply, subscriptions_reply, Body};
use zero2prod::models::Subscription;

fn subscription() -> Subscription {
    Subscription {
        id: 0x1234_5678_9abc_def0_1234_5678_9abc_def0,
        email: String::from("jd@email.com"),
        name: String::from("john doe"),
        subscribed_at: 1_700_000_000_000_000,
        updated_at: 1_700_000_000_000_000,
    }
}

#[test]
fn health_check_succeeds() {
    let response = health_check();
    assert!(response.is_success());
}

#[test]
fn health_check_answers_ok() {
    let response = health_check();
    assert_eq!(response.status, 200);
    assert!(matches!(response.body, Body::Text(ref t) if t == "OK"));
}

#[test]
fn subscribe_returns_the_stored_subscription() {
    let reply = subscribe_reply::<Subscription, String>(Ok(subscription()));
    assert_eq!(reply.status, 200);
    assert!(reply.is_success());
    match reply.body {
        Body::Json(s) => {
            assert_eq!(s.name, "john doe");
            assert_eq!(s.email, "jd@email.com");
            assert_eq!(s, subscription());
        }
        _ => panic!("expected a JSON body"),
    }
}

#[test]
fn subscribe_failure_is_a_server_error() {
    let reply = subscribe_reply::<Subscription, String>(Err(String::from("db down")));
    assert_eq!(reply.status, 500);
    assert!(!reply.is_success());
    assert!(matches!(reply.body, Body::Empty));
}

#[test]
fn subscriptions_found_missing_and_failed() {
    let reply = subscriptions_reply(Ok(Some(subscription())));
    assert_eq!(reply.status, 200);
    assert!(matches!(reply.body, Body::Json(ref s) if *s == subscription()));

    let reply = subscriptions_reply::<Subscription>(Ok(None));
    assert_eq!(reply.status, 404);
    assert!(matches!(reply.body, Body::Empty));

    let reply = subscriptions_reply::<Subscription>(Err(String::from("connection refused")));
    assert_eq!(reply.status, 500);
    assert!(matches!(reply.body, Body::Text(ref t) if t == "connection refused"));
}
