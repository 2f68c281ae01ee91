use rooklift_ws::handler::{
    broadcast_handler, broadcast_status, register_handler, unregister_handler, ws_handler, Event,
    RegisterRequest,
};
use rooklift_ws::protocol::{join_request, parse_control, ControlMessage, GamesRequest, Inbound, Step};
use rooklift_ws::pubsub::{frame_json, Message, Payload};
use rooklift_ws::registry::Registry;

fn event(game_id: usize, user_id: Option<usize>, message: &str) -> Event {
    Event { game_id, user_id, message: message.to_string() }
}

/// The handles that a broadcast of `e` pushes its text to.
fn delivered(reg: &Registry<u32>, e: &Event) -> Vec<u32> {
    let plan = broadcast_handler(reg, e);
    plan.targets.iter().filter_map(|&i| reg.outbound(i).copied()).collect()
}

fn token_of(url: &str) -> String {
    assert!(url.starts_with("/ws/"));
    url["/ws/".len()..].to_string()
}

#[test]
fn scenario_join_moves_connection() {
    let mut reg: Registry<u32> = Registry::new();
    let t1 = token_of(&register_handler(&mut reg, &RegisterRequest { user_id: 1, game_id: 10 }).url);
    assert!(reg.attach(&t1, 1));
    let t2 = token_of(&register_handler(&mut reg, &RegisterRequest { user_id: 2, game_id: 10 }).url);
    assert!(reg.attach(&t2, 2));

    assert_eq!(delivered(&reg, &event(10, None, "hello")), vec![1, 2]);

    let step = reg.client_frame(&t1, Inbound::Text("{\"game_id\":20}".to_string()));
    assert_eq!(step, Step::Handled(ControlMessage::JoinSession(GamesRequest { game_id: 20 })));

    assert_eq!(delivered(&reg, &event(10, None, "again")), vec![2]);
    assert_eq!(delivered(&reg, &event(20, None, "moved")), vec![1]);
}

#[test]
fn scenario_user_filter_skips_unattached() {
    let mut reg: Registry<u32> = Registry::new();
    let t3 = token_of(&register_handler(&mut reg, &RegisterRequest { user_id: 3, game_id: 10 }).url);
    assert!(reg.attach(&t3, 3));
    let _t4 = register_handler(&mut reg, &RegisterRequest { user_id: 4, game_id: 10 });

    assert_eq!(delivered(&reg, &event(10, Some(3), "x")), vec![3]);
    assert_eq!(delivered(&reg, &event(10, Some(4), "x")), Vec::<u32>::new());
}

#[test]
fn ids_stay_unique_and_removed_id_is_gone() {
    let mut reg: Registry<u32> = Registry::new();
    reg.register_client("a".to_string(), 1, 10);
    reg.register_client("b".to_string(), 2, 10);
    reg.register_client("a".to_string(), 5, 11);
    assert_eq!(reg.len(), 2);
    assert!(reg.attach(&"a".to_string(), 7));
    assert!(reg.attach(&"b".to_string(), 8));
    assert_eq!(delivered(&reg, &event(11, None, "m")), vec![7]);
    reg.unregister(&"a".to_string());
    assert!(!reg.contains(&"a".to_string()));
    assert_eq!(reg.len(), 1);
    assert_eq!(delivered(&reg, &event(11, None, "m")), Vec::<u32>::new());
    reg.unregister(&"a".to_string());
    assert_eq!(reg.len(), 1);
    assert!(!reg.attach(&"a".to_string(), 9));
    assert!(!reg.set_session(&"a".to_string(), 3));
}

#[test]
fn broadcast_without_user_reaches_whole_session_only() {
    let mut reg: Registry<u32> = Registry::new();
    reg.register_client("a".to_string(), 1, 10);
    reg.register_client("b".to_string(), 2, 11);
    reg.register_client("c".to_string(), 3, 10);
    reg.attach(&"a".to_string(), 1);
    reg.attach(&"b".to_string(), 2);
    reg.attach(&"c".to_string(), 3);
    let plan = broadcast_handler(&reg, &event(10, None, "p"));
    assert_eq!(plan.targets, vec![0, 2]);
}

#[test]
fn broadcast_with_user_reaches_that_user_only() {
    let mut reg: Registry<u32> = Registry::new();
    reg.register_client("a".to_string(), 1, 10);
    reg.register_client("b".to_string(), 2, 10);
    reg.register_client("c".to_string(), 2, 11);
    for (id, h) in [("a", 1), ("b", 2), ("c", 3)] {
        reg.attach(&id.to_string(), h);
    }
    assert_eq!(delivered(&reg, &event(10, Some(2), "p")), vec![2]);
    assert_eq!(delivered(&reg, &event(10, Some(9), "p")), Vec::<u32>::new());
}

#[test]
fn unattached_entry_is_skipped() {
    let mut reg: Registry<u32> = Registry::new();
    reg.register_client("a".to_string(), 1, 10);
    let plan = broadcast_handler(&reg, &event(10, None, "p"));
    assert!(plan.targets.is_empty());
    assert!(reg.outbound(0).is_none());
}

#[test]
fn keepalive_changes_nothing() {
    let mut reg: Registry<u32> = Registry::new();
    reg.register_client("a".to_string(), 1, 10);
    reg.attach(&"a".to_string(), 1);
    assert_eq!(reg.client_msg(&"a".to_string(), "ping"), ControlMessage::Keepalive);
    assert_eq!(reg.client_msg(&"a".to_string(), "ping\n"), ControlMessage::Keepalive);
    assert_eq!(parse_control("ping"), ControlMessage::Keepalive);
    assert_eq!(parse_control("ping\n"), ControlMessage::Keepalive);
    assert_eq!(delivered(&reg, &event(10, None, "p")), vec![1]);
}

#[test]
fn malformed_frames_are_ignored() {
    let mut reg: Registry<u32> = Registry::new();
    reg.register_client("a".to_string(), 1, 10);
    reg.attach(&"a".to_string(), 1);
    for text in ["pong", "{", "{\"game_id\":-1}", "{\"game\":3}", "[1]", "{\"game_id\":\"7\"}"] {
        assert_eq!(reg.client_msg(&"a".to_string(), text), ControlMessage::Malformed);
    }
    assert_eq!(delivered(&reg, &event(10, None, "p")), vec![1]);
}

#[test]
fn join_updates_session_once() {
    let mut reg: Registry<u32> = Registry::new();
    reg.register_client("a".to_string(), 1, 10);
    reg.attach(&"a".to_string(), 1);
    let c = reg.client_msg(&"a".to_string(), "{\"game_id\": 42, \"other\": true}");
    assert_eq!(c, ControlMessage::JoinSession(GamesRequest { game_id: 42 }));
    assert_eq!(delivered(&reg, &event(42, None, "p")), vec![1]);
    assert_eq!(delivered(&reg, &event(10, None, "p")), Vec::<u32>::new());
}

#[test]
fn join_request_decides_from_field() {
    assert_eq!(join_request(None), ControlMessage::Malformed);
    assert_eq!(join_request(Some(5)), ControlMessage::JoinSession(GamesRequest { game_id: 5 }));
}

#[test]
fn bus_message_is_built_once_on_games_channel() {
    let reg: Registry<u32> = Registry::new();
    let plan = broadcast_handler(&reg, &event(7, Some(1), "fen text"));
    assert!(plan.targets.is_empty());
    assert_eq!(plan.bus.channel, "games");
    assert_eq!(plan.bus.payload.fen, "fen text");
    assert_eq!(plan.bus.payload.game_id, 7);
    assert!(!plan.bus.id.is_empty());
}

#[test]
fn message_new_uses_fresh_ids() {
    let a = Message::new(Payload { fen: "f".to_string(), game_id: 1 });
    let b = Message::new(Payload { fen: "f".to_string(), game_id: 1 });
    assert_eq!(a.channel, "games");
    assert_ne!(a.id, b.id);
    let id: Vec<char> = a.id.chars().collect();
    assert_eq!(id.len(), 36);
    for (i, c) in id.iter().enumerate() {
        if [8, 13, 18, 23].contains(&i) {
            assert_eq!(*c, '-');
        } else {
            assert!(c.is_ascii_hexdigit() && !c.is_ascii_uppercase());
        }
    }
    assert_eq!(id[14], '4');
    assert!(['8', '9', 'a', 'b'].contains(&id[19]));
}

#[test]
fn message_json_has_wire_shape() {
    let m = Message {
        id: "abc".to_string(),
        channel: "games".to_string(),
        payload: Payload { fen: "say \"hi\"".to_string(), game_id: 12 },
    };
    assert_eq!(
        m.to_json(),
        "{\"id\":\"abc\",\"channel\":\"games\",\"payload\":{\"fen\":\"say \\\"hi\\\"\",\"game_id\":12}}"
    );
    assert_eq!(frame_json("1", "2", "3", "4"), "{\"id\":1,\"channel\":2,\"payload\":{\"fen\":3,\"game_id\":4}}");
}

#[test]
fn disconnect_removes_entry() {
    let mut reg: Registry<u32> = Registry::new();
    reg.register_client("a".to_string(), 1, 10);
    reg.register_client("b".to_string(), 2, 10);
    reg.attach(&"a".to_string(), 1);
    reg.attach(&"b".to_string(), 2);
    assert_eq!(reg.client_frame(&"a".to_string(), Inbound::Closed), Step::Ended);
    assert_eq!(delivered(&reg, &event(10, None, "p")), vec![2]);
    assert_eq!(reg.client_frame(&"b".to_string(), Inbound::NotText), Step::Ended);
    assert_eq!(reg.len(), 0);
    assert_eq!(delivered(&reg, &event(10, None, "p")), Vec::<u32>::new());
}

#[test]
fn register_answers_with_upgrade_path() {
    let mut reg: Registry<u32> = Registry::new();
    let r = register_handler(&mut reg, &RegisterRequest { user_id: 1, game_id: 2 });
    let token = token_of(&r.url);
    assert_eq!(token.len(), 32);
    assert!(token.chars().all(|c| c.is_ascii_hexdigit() && !c.is_ascii_uppercase()));
    assert_eq!(token.as_bytes()[12], b'4');
    assert!(ws_handler(&reg, &token));
    assert_eq!(reg.id_at(0), &token);
    unregister_handler(&mut reg, &token);
    assert!(!ws_handler(&reg, &token));
}

#[test]
fn broadcast_status_follows_publish() {
    assert_eq!(broadcast_status(true), 200);
    assert_eq!(broadcast_status(false), 400);
}

#[test]
fn message_json_escapes_controls_and_backslash() {
    let m = Message {
        id: "i".to_string(),
        channel: "games".to_string(),
        payload: Payload { fen: "a\\b\n\t\u{1}/".to_string(), game_id: 0 },
    };
    assert_eq!(
        m.to_json(),
        "{\"id\":\"i\",\"channel\":\"games\",\"payload\":{\"fen\":\"a\\\\b\\n\\t\\u0001/\",\"game_id\":0}}"
    );
}

#[test]
fn attach_stores_the_given_handle() {
    let mut reg: Registry<u32> = Registry::new();
    reg.register_client("a".to_string(), 1, 10);
    reg.register_client("b".to_string(), 2, 10);
    assert!(reg.attach(&"b".to_string(), 22));
    assert!(reg.attach(&"a".to_string(), 11));
    assert_eq!(reg.outbound(0), Some(&11));
    assert_eq!(reg.outbound(1), Some(&22));
    assert!(reg.set_session(&"a".to_string(), 30));
    assert_eq!(reg.outbound(0), Some(&11));
    assert_eq!(delivered(&reg, &event(30, None, "p")), vec![11]);
}
