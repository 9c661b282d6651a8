use brp_remote::error::VerbError;
use brp_remote::protocol::{
    decode, handle, process_message, BrpMessage, BrpRequest, BrpResponse, EditorRemotePlugin, Output,
    VerbCall, DEFAULT_PORT, MAILBOX_CAPACITY,
};
use brp_remote::registry::{RemoteVerbs, Verb};
use brp_remote::reply::ReplySlot;
use brp_remote::store::{Component, World};
use brp_remote::json::Json;
use serde_json::Value;

const TRANSFORM: &str = "bevy_transform::components::transform::Transform";


fn to_json(v: Value) -> Json {
    match v {
        Value::Null => Json::Null,
        Value::Bool(b) => Json::Bool(b),
        Value::Number(n) => match n.as_u64() {
            Some(u) => Json::UInt(u),
            None => Json::Number(n.to_string()),
        },
        Value::String(s) => Json::Str(s),
        Value::Array(items) => Json::Array(items.into_iter().map(to_json).collect()),
        Value::Object(members) => Json::Object(members.into_iter().map(|(k, v)| (k, to_json(v))).collect()),
    }
}

fn json(text: &str) -> Json {
    to_json(serde_json::from_str(text).unwrap())
}

fn request(verb: &str, id: Json, params: &str) -> BrpRequest {
    BrpRequest { request: verb.to_string(), id, params: json(params) }
}

fn run(verbs: &RemoteVerbs, world: &mut World, verb: &str, params: &str) -> BrpResponse {
    handle(verbs, world, request(verb, json("0"), params))
}

/// A store whose objects have handles 0 to 42; object 42 carries a camera.
fn world_with_camera() -> World {
    let mut world = World::new();
    for _ in 0..42 {
        world.spawn(&Vec::new()).unwrap();
    }
    let camera = vec![Component { path: "Camera".to_string(), value: json("{}") }];
    assert_eq!(world.spawn(&camera).unwrap(), 42);
    world
}

fn message(r: &BrpResponse) -> String {
    match &r.result {
        Err(e) => e.message(),
        Ok(_) => panic!("expected an error"),
    }
}

#[test]
fn id_is_echoed_for_scalar_string_and_structured_ids() {
    let verbs = RemoteVerbs::with_builtins();
    let mut world = world_with_camera();
    for id in ["1", "\"abc\"", "{\"a\":[1,2,{\"b\":null}]}", "null", "[true,false]"] {
        let params = "{\"data\":{\"components\":[\"Camera\"]}}";
        let r = handle(&verbs, &mut world, request("QUERY", json(id), params));
        assert!(r.is_ok());
        assert_eq!(r.id, json(id));
        let r = handle(&verbs, &mut world, request("NOPE", json(id), "{}"));
        assert!(!r.is_ok());
        assert_eq!(r.id, json(id));
    }
}

#[test]
fn unknown_verb_is_an_error_naming_it_and_changes_nothing() {
    let verbs = RemoteVerbs::with_builtins();
    let mut world = world_with_camera();
    let r = run(&verbs, &mut world, "FROBNICATE", "{\"entity\":42}");
    assert!(matches!(&r.result, Err(VerbError::UnknownVerb(n)) if n == "FROBNICATE"));
    assert_eq!(message(&r), "Unknown verb: FROBNICATE");
    // names are matched exactly, case included
    let r = run(&verbs, &mut world, "destroy", "{\"entity\":42}");
    assert!(message(&r).contains("destroy"));
    let r = run(&verbs, &mut world, "LIST", "{\"entity\":42}");
    assert!(matches!(r.result, Ok(Output::Names(ref n)) if n == &vec!["Camera".to_string()]));
}

#[test]
fn a_spent_reply_slot_is_skipped() {
    let verbs = RemoteVerbs::with_builtins();
    let mut world = world_with_camera();
    let message = BrpMessage { request: request("DESTROY", json("1"), "{\"entity\":42}"), sender: ReplySlot::new(7u8) };
    let (sender, response) = process_message(&verbs, &mut world, message).unwrap();
    assert_eq!(sender, 7);
    assert!(response.is_ok());
    let mut slot = ReplySlot::new(8u8);
    assert_eq!(slot.take(), Some(8));
    let message = BrpMessage { request: request("DESTROY", json("2"), "{\"entity\":41}"), sender: slot };
    assert!(process_message(&verbs, &mut world, message).is_none());
    // object 41 is still there: the second message ran no verb
    assert!(run(&verbs, &mut world, "LIST", "{\"entity\":41}").is_ok());
}

#[test]
fn server_listens_on_the_default_port() {
    assert_eq!(EditorRemotePlugin::default().port, DEFAULT_PORT);
    assert_eq!(DEFAULT_PORT, 15702);
}

#[test]
fn reply_slot_takes_once() {
    let mut slot = ReplySlot::new("sender".to_string());
    assert!(!slot.is_spent());
    assert_eq!(slot.take(), Some("sender".to_string()));
    assert_eq!(slot.take(), None);
    assert!(slot.is_spent());
}

#[test]
fn query_finds_the_camera() {
    let verbs = RemoteVerbs::with_builtins();
    let mut world = world_with_camera();
    let r = run(&verbs, &mut world, "QUERY", "{\"data\":{\"components\":[\"Camera\"]}}");
    match r.result {
        Ok(Output::Rows(rows)) => {
            assert_eq!(rows.len(), 1);
            assert_eq!(rows[0].entity, 42);
            assert_eq!(rows[0].components.len(), 1);
            assert_eq!(rows[0].components[0].path, "Camera");
            assert_eq!(rows[0].components[0].value, json("{}"));
        }
        _ => panic!("expected rows"),
    }
}

#[test]
fn query_filters_with_and_without() {
    let verbs = RemoteVerbs::with_builtins();
    let mut world = World::new();
    run(&verbs, &mut world, "SPAWN", "{\"components\":{\"A\":1,\"B\":2}}");
    run(&verbs, &mut world, "SPAWN", "{\"components\":{\"A\":3}}");
    run(&verbs, &mut world, "SPAWN", "{\"components\":{\"A\":4,\"C\":5}}");
    let r = run(&verbs, &mut world, "QUERY",
        "{\"data\":{\"components\":[\"A\"]},\"filter\":{\"without\":[\"C\"]}}");
    match r.result {
        Ok(Output::Rows(rows)) => {
            let ids: Vec<u64> = rows.iter().map(|r| r.entity).collect();
            assert_eq!(ids, vec![0, 1]);
        }
        _ => panic!("expected rows"),
    }
    let r = run(&verbs, &mut world, "QUERY",
        "{\"data\":{\"components\":[\"A\"]},\"filter\":{\"with\":[\"B\"]}}");
    match r.result {
        Ok(Output::Rows(rows)) => {
            assert_eq!(rows.len(), 1);
            assert_eq!(rows[0].entity, 0);
            assert_eq!(rows[0].components[0].value, json("1"));
        }
        _ => panic!("expected rows"),
    }
    let r = run(&verbs, &mut world, "QUERY", "{\"data\":{\"components\":[\"Z\"]}}");
    assert!(matches!(r.result, Ok(Output::Rows(ref rows)) if rows.is_empty()));
}

#[test]
fn insert_then_get_returns_the_values_and_is_idempotent() {
    let verbs = RemoteVerbs::with_builtins();
    let mut world = world_with_camera();
    let insert = "{\"entity\":42,\"components\":{\"bevy_transform::components::transform::Transform\":{\"translation\":{\"x\":1.0,\"y\":2.5,\"z\":-3.0},\"rotation\":{\"x\":0.0,\"y\":0.0,\"z\":0.0,\"w\":1.0},\"scale\":{\"x\":1.0,\"y\":1.0,\"z\":1.0}}}}";
    let get = "{\"entity\":42,\"components\":[\"bevy_transform::components::transform::Transform\"]}";
    let submitted = to_json(serde_json::from_str::<Value>(insert).unwrap()["components"][TRANSFORM].clone());
    assert!(run(&verbs, &mut world, "INSERT", insert).is_ok());
    let first = run(&verbs, &mut world, "GET", get);
    match &first.result {
        Ok(Output::Components(e, cs)) => {
            assert_eq!(*e, 42);
            assert_eq!(cs.len(), 1);
            assert_eq!(cs[0].path, TRANSFORM);
            assert_eq!(cs[0].value, submitted);
        }
        _ => panic!("expected components"),
    }
    assert!(run(&verbs, &mut world, "INSERT", insert).is_ok());
    let second = run(&verbs, &mut world, "GET", get);
    match (&first.result, &second.result) {
        (Ok(Output::Components(_, a)), Ok(Output::Components(_, b))) => {
            assert_eq!(a[0].value, b[0].value);
        }
        _ => panic!("expected components"),
    }
    let r = run(&verbs, &mut world, "LIST", "{\"entity\":42}");
    match r.result {
        Ok(Output::Names(mut names)) => {
            names.sort();
            assert_eq!(names, vec!["Camera".to_string(), TRANSFORM.to_string()]);
        }
        _ => panic!("expected names"),
    }
}

#[test]
fn insert_replaces_a_component() {
    let mut world = World::new();
    let id = world.spawn(&vec![Component { path: "P".to_string(), value: json("1") }]).unwrap();
    world.insert(id, &vec![Component { path: "P".to_string(), value: json("2") }]).unwrap();
    let got = world.get(id, &vec!["P".to_string()]).unwrap();
    assert_eq!(got[0].value, json("2"));
}

#[test]
fn spawn_keeps_the_last_of_repeated_paths() {
    let mut world = World::new();
    let id = world
        .spawn(&vec![
            Component { path: "P".to_string(), value: json("1") },
            Component { path: "P".to_string(), value: json("9") },
        ])
        .unwrap();
    assert_eq!(world.list(id).unwrap(), vec!["P".to_string()]);
    assert_eq!(world.get(id, &vec!["P".to_string()]).unwrap()[0].value, json("9"));
}

#[test]
fn missing_object_and_component_are_errors() {
    let verbs = RemoteVerbs::with_builtins();
    let mut world = world_with_camera();
    let r = run(&verbs, &mut world, "GET", "{\"entity\":99,\"components\":[\"Camera\"]}");
    assert!(matches!(r.result, Err(VerbError::NoSuchEntity(99))));
    assert_eq!(message(&r), "No such entity: 99");
    let r = run(&verbs, &mut world, "GET", "{\"entity\":42,\"components\":[\"Camera\",\"Light\",\"Mesh\"]}");
    assert!(matches!(&r.result, Err(VerbError::NoSuchComponent(42, p)) if p == "Light"));
    assert_eq!(message(&r), "Entity 42 has no component Light");
    let r = run(&verbs, &mut world, "INSERT", "{\"entity\":1000,\"components\":{}}");
    assert!(matches!(r.result, Err(VerbError::NoSuchEntity(1000))));
    let r = run(&verbs, &mut world, "DESTROY", "{\"entity\":1000}");
    assert!(matches!(r.result, Err(VerbError::NoSuchEntity(1000))));
    let r = run(&verbs, &mut world, "LIST", "{\"entity\":1000}");
    assert!(matches!(r.result, Err(VerbError::NoSuchEntity(1000))));
}

#[test]
fn malformed_parameters_are_errors() {
    let verbs = RemoteVerbs::with_builtins();
    let mut world = world_with_camera();
    let r = run(&verbs, &mut world, "GET", "{\"components\":[\"Camera\"]}");
    assert!(matches!(&r.result, Err(VerbError::InvalidParams(f)) if f == "entity"));
    assert_eq!(message(&r), "Missing or malformed parameter: entity");
    let r = run(&verbs, &mut world, "GET", "{\"entity\":\"forty-two\",\"components\":[]}");
    assert!(matches!(&r.result, Err(VerbError::InvalidParams(f)) if f == "entity"));
    let r = run(&verbs, &mut world, "QUERY", "{\"components\":[\"Camera\"]}");
    assert!(matches!(&r.result, Err(VerbError::InvalidParams(f)) if f == "data"));
    let r = run(&verbs, &mut world, "SPAWN", "{\"components\":[1,2]}");
    assert!(matches!(&r.result, Err(VerbError::InvalidParams(f)) if f == "components"));
    let r = run(&verbs, &mut world, "REMOVE", "{\"entity\":42,\"components\":[7]}");
    assert!(matches!(&r.result, Err(VerbError::InvalidParams(f)) if f == "components"));
}

#[test]
fn handles_exhausted_message() {
    assert_eq!(VerbError::HandlesExhausted.message(), "No entity handles are left");
}

#[test]
fn remove_is_all_or_nothing() {
    let verbs = RemoteVerbs::with_builtins();
    let mut world = World::new();
    run(&verbs, &mut world, "SPAWN", "{\"components\":{\"A\":1,\"B\":2,\"C\":3}}");
    let r = run(&verbs, &mut world, "REMOVE", "{\"entity\":0,\"components\":[\"A\",\"Q\"]}");
    assert!(matches!(&r.result, Err(VerbError::NoSuchComponent(0, p)) if p == "Q"));
    assert_eq!(world.list(0).unwrap().len(), 3);
    let r = run(&verbs, &mut world, "REMOVE", "{\"entity\":0,\"components\":[\"A\",\"C\"]}");
    assert!(r.is_ok());
    assert_eq!(world.list(0).unwrap(), vec!["B".to_string()]);
}

#[test]
fn destroy_deletes_the_object() {
    let verbs = RemoteVerbs::with_builtins();
    let mut world = world_with_camera();
    assert!(run(&verbs, &mut world, "DESTROY", "{\"entity\":42}").is_ok());
    let r = run(&verbs, &mut world, "QUERY", "{\"data\":{\"components\":[\"Camera\"]}}");
    assert!(matches!(r.result, Ok(Output::Rows(ref rows)) if rows.is_empty()));
    let r = run(&verbs, &mut world, "SPAWN", "{\"components\":{}}");
    assert!(matches!(r.result, Ok(Output::Spawned(43))));
}

#[test]
fn reparent_checks_every_handle_first() {
    let verbs = RemoteVerbs::with_builtins();
    let mut world = World::new();
    for _ in 0..3 {
        world.spawn(&Vec::new()).unwrap();
    }
    let r = run(&verbs, &mut world, "REPARENT", "{\"entities\":[1,5],\"parent\":0}");
    assert!(matches!(r.result, Err(VerbError::NoSuchEntity(5))));
    let r = run(&verbs, &mut world, "REPARENT", "{\"entities\":[1],\"parent\":9}");
    assert!(matches!(r.result, Err(VerbError::NoSuchEntity(9))));
    let r = run(&verbs, &mut world, "REPARENT", "{\"entities\":[1,2],\"parent\":0}");
    assert!(r.is_ok());
    let r = run(&verbs, &mut world, "REPARENT", "{\"entities\":[2],\"parent\":null}");
    assert!(r.is_ok());
}

#[test]
fn registry_insert_replaces_and_returns_the_old_verb() {
    let mut verbs = RemoteVerbs::new();
    assert_eq!(verbs.get(&"GET".to_string()), None);
    assert_eq!(verbs.insert("FETCH".to_string(), Verb::Get), None);
    assert_eq!(verbs.insert("FETCH".to_string(), Verb::List), Some(Verb::Get));
    assert_eq!(verbs.get(&"FETCH".to_string()), Some(Verb::List));
    assert_eq!(verbs.get(&"fetch".to_string()), None);
    let builtins = RemoteVerbs::with_builtins();
    for (name, verb) in [
        ("GET", Verb::Get), ("QUERY", Verb::Query), ("SPAWN", Verb::Spawn), ("INSERT", Verb::Insert),
        ("REMOVE", Verb::Remove), ("DESTROY", Verb::Destroy), ("REPARENT", Verb::Reparent), ("LIST", Verb::List),
    ] {
        assert_eq!(builtins.get(&name.to_string()), Some(verb));
    }
}

#[test]
fn decode_reads_each_verb() {
    let call = decode(Verb::Reparent, &json("{\"entities\":[3,4],\"parent\":1}")).unwrap();
    assert!(matches!(call, VerbCall::Reparent { ref entities, parent: Some(1) } if entities == &vec![3, 4]));
    let call = decode(Verb::Get, &json("{\"entity\":5,\"components\":[\"X\",\"Y\"]}")).unwrap();
    assert!(matches!(call, VerbCall::Get { entity: 5, ref components } if components == &vec!["X".to_string(), "Y".to_string()]));
    let call = decode(Verb::Insert, &json("{\"entity\":5,\"components\":{\"X\":[1]}}")).unwrap();
    match call {
        VerbCall::Insert { entity, components } => {
            assert_eq!(entity, 5);
            assert_eq!(components[0].path, "X");
            assert_eq!(components[0].value, json("[1]"));
        }
        _ => panic!("expected an insert"),
    }
}

#[test]
fn full_mailbox_suspends_the_next_send_until_a_slot_is_drained() {
    let verbs = RemoteVerbs::with_builtins();
    let mut world = world_with_camera();
    let (sender, mailbox) = smol::channel::bounded::<BrpMessage<u32>>(MAILBOX_CAPACITY);
    for i in 0..MAILBOX_CAPACITY as u32 {
        let params = "{\"entity\":42}";
        let message = BrpMessage { request: request("LIST", json(&i.to_string()), params), sender: ReplySlot::new(i) };
        sender.try_send(message).ok().unwrap();
    }
    let extra = BrpMessage { request: request("LIST", json("99"), "{\"entity\":42}"), sender: ReplySlot::new(99) };
    let mut send = Box::pin(sender.send(extra));
    // the send neither fails nor drops the request: it waits
    assert!(smol::block_on(smol::future::poll_once(&mut send)).is_none());
    assert_eq!(mailbox.len(), MAILBOX_CAPACITY);
    let (reply, response) = process_message(&verbs, &mut world, mailbox.try_recv().unwrap()).unwrap();
    assert_eq!(reply, 0);
    assert!(response.is_ok());
    assert!(smol::block_on(send).is_ok());
    let mut last = None;
    while let Ok(message) = mailbox.try_recv() {
        last = process_message(&verbs, &mut world, message);
    }
    let (reply, response) = last.unwrap();
    assert_eq!(reply, 99);
    assert_eq!(response.id, json("99"));
}
