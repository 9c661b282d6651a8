use brp_remote::client::{
    discovered_handle, on_discovery_sent, on_input, on_poll, BrpClient, ClientError,
    RemoteConnectionState, SyncMarkers, toggle_fps, should_discover,
};
use brp_remote::json::Json;
use brp_remote::protocol::{VerbCall, DEFAULT_PORT};
use serde_json::Value;

use RemoteConnectionState::{Checking, Connected, Connecting, Disconnected};

fn to_json(v: Value) -> Json {
    match v {
        Value::Null => Json::Null,
        Value::Bool(b) => Json::Bool(b),
        Value::Number(n) => match n.as_u64() {
            Some(u) => Json::UInt(u),
            None => Json::Number(n.to_string()),
        },
        Value::String(s) => Json::Str(s),
        Value::Array(items) => Json::Array(items.into_iter().map(to_json).collect()),
        Value::Object(members) => Json::Object(members.into_iter().map(|(k, v)| (k, to_json(v))).collect()),
    }
}

fn json(text: &str) -> Json {
    to_json(serde_json::from_str(text).unwrap())
}

#[test]
fn coalesces_changes_while_running() {
    let mut m = SyncMarkers { running: true, pending: false };
    let mut local = 0;
    let mut sent = Vec::new();
    for value in 1..=5 {
        local = value;
        if m.tick(false, true, true) {
            sent.push(local);
        }
    }
    assert!(sent.is_empty());
    assert_eq!(m, SyncMarkers { running: true, pending: true });
    if m.tick(true, false, true) {
        sent.push(local);
    }
    assert_eq!(sent, vec![5]);
    assert_eq!(m, SyncMarkers { running: true, pending: false });
    // the follow-up completes and nothing more is sent
    assert!(!m.tick(true, false, true));
    assert_eq!(m, SyncMarkers::idle());
}

#[test]
fn idle_change_is_sent_on_the_next_tick() {
    let mut m = SyncMarkers::idle();
    assert!(m.tick(false, true, true));
    assert_eq!(m, SyncMarkers { running: true, pending: false });
    let mut m = SyncMarkers::idle();
    assert!(!m.tick(false, false, true));
    assert_eq!(m, SyncMarkers::idle());
}

#[test]
fn a_change_without_a_handle_stays_pending() {
    let mut m = SyncMarkers::idle();
    assert!(!m.tick(false, true, false));
    assert_eq!(m, SyncMarkers { running: false, pending: true });
    assert!(!m.tick(false, false, false));
    assert_eq!(m, SyncMarkers { running: false, pending: true });
    // once a handle is known, the pending change goes out
    assert!(m.tick(false, false, true));
    assert_eq!(m, SyncMarkers { running: true, pending: false });
}

#[test]
fn only_one_discovery_at_a_time() {
    assert!(should_discover(Connecting, false));
    assert!(!should_discover(Connecting, true));
    assert!(!should_discover(Disconnected, false));
    assert!(!should_discover(Checking, false));
}

#[test]
fn change_on_completion_tick_is_sent() {
    let mut m = SyncMarkers { running: true, pending: true };
    assert!(m.tick(true, true, true));
    assert_eq!(m, SyncMarkers { running: true, pending: false });
}

#[test]
fn scenario_camera_found() {
    let mut client = BrpClient::new();
    let req = client.fetch_remote_camera();
    assert_eq!(req.verb, "QUERY");
    assert_eq!(req.id, 1);
    assert!(matches!(req.call, VerbCall::Query { ref components, .. }
        if components == &vec!["bevy_render::camera::camera::Camera".to_string()]));
    let state = on_input(Disconnected, true, false);
    assert_eq!(state, Connecting);
    let state = on_discovery_sent(state, true);
    assert_eq!(state, Checking);
    assert_eq!(on_poll(state, false, None), Checking);
    let handle = discovered_handle(&json("{\"rows\":[{\"entity\":42,\"components\":{}}]}"));
    assert_eq!(handle, Some(42));
    assert_eq!(on_poll(state, true, handle), Connected);
}

#[test]
fn scenario_no_camera() {
    let handle = discovered_handle(&json("{\"rows\":[]}"));
    assert_eq!(handle, None);
    assert_eq!(on_poll(Checking, true, handle), Disconnected);
    // a fresh attempt starts on the next input
    assert_eq!(on_input(Disconnected, true, false), Connecting);
}

#[test]
fn unexpected_responses_find_no_handle() {
    assert_eq!(discovered_handle(&json("{\"status\":\"ERROR\",\"id\":1,\"message\":\"x\"}")), None);
    assert_eq!(discovered_handle(&json("{\"rows\":[{\"entity\":\"x\"}]}")), None);
    assert_eq!(discovered_handle(&json("{\"rows\":[{\"entity\":-3}]}")), None);
    assert_eq!(discovered_handle(&json("{\"rows\":{\"entity\":7}}")), None);
    assert_eq!(discovered_handle(&json("[1,2]")), None);
    assert_eq!(discovered_handle(&json("{\"rows\":[{\"entity\":7},{\"entity\":8}]}")), Some(7));
}

#[test]
fn input_does_not_restart_a_running_discovery() {
    assert_eq!(on_input(Disconnected, true, true), Disconnected);
    assert_eq!(on_input(Disconnected, false, false), Disconnected);
    assert_eq!(on_input(Connected, true, false), Connected);
    assert_eq!(on_discovery_sent(Connecting, false), Connecting);
    assert_eq!(on_poll(Connected, true, None), Connected);
}

#[test]
fn ids_count_up_and_post_needs_a_handle() {
    let mut client = BrpClient::new();
    assert_eq!(client.url, format!("http://127.0.0.1:{}", DEFAULT_PORT));
    assert_eq!(client.next_id(), 1);
    let transform = json("{\"translation\":{\"x\":1.0}}");
    assert!(matches!(client.post_transform(None, transform.duplicate()), Err(ClientError::NoRemoteHandle)));
    assert_eq!(client.last_id, 2);
    let req = client.post_transform(Some(42), transform.duplicate()).unwrap();
    assert_eq!(req.verb, "INSERT");
    assert_eq!(req.id, 3);
    match req.call {
        VerbCall::Insert { entity, components } => {
            assert_eq!(entity, 42);
            assert_eq!(components[0].path, "bevy_transform::components::transform::Transform");
            assert_eq!(components[0].value, transform);
        }
        _ => panic!("expected an insert"),
    }
    let req = client.spawn_fps_marker(
        true,
        "my_app::RemoteFpsCounter".to_string(),
        "my_app::DespawnRemoteFpsCounter".to_string(),
    );
    assert_eq!(req.verb, "SPAWN");
    match req.call {
        VerbCall::Spawn { components } => {
            assert_eq!(components[0].path, "my_app::RemoteFpsCounter");
            assert_eq!(components[0].value, Json::Null);
        }
        _ => panic!("expected a spawn"),
    }
    let req = client.spawn_fps_marker(false, "Shown".to_string(), "Hidden".to_string());
    assert!(matches!(req.call, VerbCall::Spawn { ref components } if components[0].path == "Hidden"));
    client.set_url("http://10.0.0.2:9000".to_string());
    assert_eq!(client.url, "http://10.0.0.2:9000");
    assert_eq!(client.last_id, 5);
}

#[test]
fn toggle_waits_for_the_running_request() {
    assert_eq!(toggle_fps(false, false, true), Some(true));
    assert_eq!(toggle_fps(true, false, true), Some(false));
    assert_eq!(toggle_fps(false, true, true), None);
    assert_eq!(toggle_fps(false, false, false), None);
}
