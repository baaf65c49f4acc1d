use obs_websocket::auth::{read_requirement, requirement_from_fields, AuthRequirement};
use obs_websocket::envelope::Field;
use obs_websocket::{
    authenticate, prepare_request, process_event, withdraw_request, AuthStep, Dispatch, Listeners,
    MessageCounter, RequestType,
};
use serde_json::Value;

fn text(s: &str) -> Field {
    Field::Text(s.to_string())
}

#[test]
fn a_set_flag_asks_for_salt_and_challenge() {
    match requirement_from_fields(Some(true), text("S"), text("C")) {
        Some(AuthRequirement::Required { salt, challenge }) => {
            assert_eq!(salt, "S");
            assert_eq!(challenge, "C");
        },
        other => panic!("not required: {:?}", other),
    }
    assert!(requirement_from_fields(Some(true), Field::Absent, text("C")).is_none());
    assert!(requirement_from_fields(Some(true), text("S"), Field::Absent).is_none());
    assert!(requirement_from_fields(Some(true), Field::Other, text("C")).is_none());
    assert!(requirement_from_fields(Some(true), text("S"), Field::Other).is_none());
}

#[test]
fn an_unset_flag_asks_for_nothing() {
    assert!(matches!(
        requirement_from_fields(Some(false), Field::Absent, Field::Absent),
        Some(AuthRequirement::NotRequired)
    ));
    assert!(matches!(
        requirement_from_fields(Some(false), text("S"), text("C")),
        Some(AuthRequirement::NotRequired)
    ));
}

#[test]
fn without_a_flag_nothing_is_known() {
    assert!(requirement_from_fields(None, text("S"), text("C")).is_none());
}

#[test]
fn read_requirement_reads_the_three_members() {
    let response = "{\"authRequired\":true,\"challenge\":\"C\",\"message-id\":\"1\",\"salt\":\"S\",\"status\":\"ok\"}";
    match read_requirement(response) {
        Some(AuthRequirement::Required { salt, challenge }) => {
            assert_eq!(salt, "S");
            assert_eq!(challenge, "C");
        },
        other => panic!("not required: {:?}", other),
    }
    assert!(matches!(
        read_requirement("{\"authRequired\":false,\"message-id\":\"1\",\"status\":\"ok\"}"),
        Some(AuthRequirement::NotRequired)
    ));
    assert!(read_requirement("{\"authRequired\":\"true\",\"salt\":\"S\",\"challenge\":\"C\"}").is_none());
    assert!(read_requirement("{\"authRequired\":true,\"salt\":\"S\"}").is_none());
    assert!(read_requirement("{\"salt\":\"S\",\"challenge\":\"C\"}").is_none());
    assert!(read_requirement("{\"authRequired\":tr").is_none());
}

#[test]
fn authenticate_answers_the_challenge() {
    let response = "{\"authRequired\":true,\"challenge\":\"C\",\"message-id\":\"1\",\"salt\":\"S\",\"status\":\"ok\"}";
    match authenticate(response, "p".to_string()) {
        AuthStep::Authenticate { arguments } => {
            assert_eq!(arguments.len(), 1);
            assert_eq!(
                arguments.get("auth"),
                Some(&Value::from("Bxluv963ti1MHqMK2HJPuGmaWdwWH0DMz2nsLo0IQLE="))
            );
        },
        other => panic!("no second request: {:?}", other),
    }
}

#[test]
fn authenticate_is_done_where_nothing_is_asked_for() {
    let response = "{\"authRequired\":false,\"message-id\":\"1\",\"status\":\"ok\"}";
    assert!(matches!(authenticate(response, "p".to_string()), AuthStep::Done));
}

#[test]
fn authenticate_fails_on_a_response_that_cannot_be_read() {
    assert!(matches!(authenticate("{\"message-id\":\"1\"}", "p".to_string()), AuthStep::Failed));
    assert!(matches!(authenticate("", "p".to_string()), AuthStep::Failed));
    assert!(matches!(
        authenticate("{\"authRequired\":true,\"challenge\":1,\"salt\":\"S\"}", "p".to_string()),
        AuthStep::Failed
    ));
}

#[test]
fn prepare_request_registers_the_request_under_a_new_id() {
    let mut counter = MessageCounter::new();
    let mut listeners: Listeners<u32> = Listeners::new();
    let first = prepare_request(&mut counter, &mut listeners, RequestType::GetSceneList, None, 1).unwrap();
    assert_eq!(first.message_id, "1");
    assert_eq!(first.payload, "{\"message-id\":\"1\",\"request-type\":\"GetSceneList\"}");
    let second = prepare_request(&mut counter, &mut listeners, RequestType::GetSceneList, None, 2).unwrap();
    assert_eq!(second.message_id, "2");
    assert_eq!(second.payload, "{\"message-id\":\"2\",\"request-type\":\"GetSceneList\"}");
    assert!(listeners.contains("1"));
    assert!(listeners.contains("2"));
    assert_eq!(listeners.take("2"), Some(2));
    assert_eq!(listeners.take("1"), Some(1));
}

#[test]
fn a_withdrawn_request_waits_no_longer() {
    let mut counter = MessageCounter::new();
    let mut listeners: Listeners<u32> = Listeners::new();
    let first = prepare_request(&mut counter, &mut listeners, RequestType::GetSceneList, None, 1).unwrap();
    let second = prepare_request(&mut counter, &mut listeners, RequestType::GetSceneList, None, 2).unwrap();
    withdraw_request(&mut listeners, &first.message_id);
    assert!(!listeners.contains("1"));
    assert!(listeners.contains("2"));
    let late = "{\"message-id\":\"1\"}".to_string();
    assert!(matches!(process_event(late, &mut listeners), Dispatch::Unmatched));
    withdraw_request(&mut listeners, &second.message_id);
    withdraw_request(&mut listeners, &second.message_id);
    assert!(!listeners.contains("2"));
}

#[test]
fn the_handshake_from_end_to_end() {
    let mut counter = MessageCounter::new();
    let mut listeners: Listeners<&str> = Listeners::new();

    let first =
        prepare_request(&mut counter, &mut listeners, RequestType::GetAuthRequired, None, "first caller")
            .unwrap();
    assert_eq!(first.payload, "{\"message-id\":\"1\",\"request-type\":\"GetAuthRequired\"}");

    let reply = "{\"authRequired\":true,\"challenge\":\"C\",\"message-id\":\"1\",\"salt\":\"S\",\"status\":\"ok\"}";
    let payload = match process_event(reply.to_string(), &mut listeners) {
        Dispatch::Deliver { slot, payload } => {
            assert_eq!(slot, "first caller");
            payload
        },
        other => panic!("not delivered: {:?}", other),
    };

    let arguments = match authenticate(&payload, "p".to_string()) {
        AuthStep::Authenticate { arguments } => arguments,
        other => panic!("no second request: {:?}", other),
    };
    let second = prepare_request(
        &mut counter,
        &mut listeners,
        RequestType::Authenticate,
        Some(arguments),
        "second caller",
    )
    .unwrap();
    let sent = serde_json::from_str::<Value>(&second.payload).unwrap();
    assert_eq!(sent.get("auth").unwrap().as_str(), Some("Bxluv963ti1MHqMK2HJPuGmaWdwWH0DMz2nsLo0IQLE="));
    assert_eq!(sent.get("request-type").unwrap().as_str(), Some("Authenticate"));
    assert_eq!(sent.get("message-id").unwrap().as_str(), Some("2"));

    let accepted = "{\"message-id\":\"2\",\"status\":\"ok\"}";
    match process_event(accepted.to_string(), &mut listeners) {
        Dispatch::Deliver { slot, payload } => {
            assert_eq!(slot, "second caller");
            assert_eq!(payload, accepted);
        },
        other => panic!("not delivered: {:?}", other),
    }
    assert!(!listeners.contains("1"));
    assert!(!listeners.contains("2"));
}

#[test]
fn a_request_that_could_not_be_written_is_not_registered() {
    let mut listeners: Listeners<u32> = Listeners::new();
    let outgoing = obs_websocket::session::register_request(&mut listeners, "1".to_string(), None, 1);
    assert!(outgoing.is_none());
    assert!(listeners.is_empty());
    let outgoing = obs_websocket::session::register_request(
        &mut listeners,
        "1".to_string(),
        Some("{}".to_string()),
        1,
    )
    .unwrap();
    assert_eq!(outgoing.message_id, "1");
    assert_eq!(outgoing.payload, "{}");
    assert_eq!(listeners.take("1"), Some(1));
}

#[test]
fn any_response_but_an_error_completes_the_handshake() {
    assert!(obs_websocket::accepted("{\"message-id\":\"2\",\"status\":\"ok\"}"));
    assert!(obs_websocket::accepted("{\"message-id\":\"2\"}"));
    assert!(obs_websocket::accepted("{\"message-id\":\"2\",\"status\":7}"));
    assert!(!obs_websocket::accepted(
        "{\"error\":\"Authentication Failed.\",\"message-id\":\"2\",\"status\":\"error\"}"
    ));
}

#[test]
fn the_status_of_an_error_is_told_from_others() {
    assert!(obs_websocket::auth::status_is_error(&text("error")));
    assert!(!obs_websocket::auth::status_is_error(&text("ok")));
    assert!(!obs_websocket::auth::status_is_error(&text("Error")));
    assert!(!obs_websocket::auth::status_is_error(&text("")));
    assert!(!obs_websocket::auth::status_is_error(&Field::Absent));
    assert!(!obs_websocket::auth::status_is_error(&Field::Other));
}
