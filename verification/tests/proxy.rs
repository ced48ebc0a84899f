use croquette::backend::{Action, Request, ServerMessage, Warning};
use croquette::irc::{Command, Message, Prefix, Response};
use croquette::json::{username_from_member, username_of, UsernameError};
use croquette::proxy::{
    announce_room, describe, login_rejected, recover_username, server_notice, server_response,
    welcome, ClientInfo, Proxy, ProxyListener,
};
use croquette::schema::{
    Attachment, MessageId, Room, RoomEvent, RoomEventData, RoomExtraInfo, ShortUser,
};
use croquette::session::Session;
use std::cell::Cell;

const HOST: &str = "chat.example.com";

fn alice() -> ClientInfo {
    ClientInfo {
        nick: "alice".to_string(),
        user: "a".to_string(),
        pass: "tok".to_string(),
        host: "10.0.0.7".to_string(),
    }
}

fn rooms() -> Session {
    Session::from_rooms(vec![
        Room::Chat {
            id: "R1".to_string(),
            name: "room".to_string(),
            topic: Some("welcome".to_string()),
            last_seen: 100,
        },
        Room::Private { id: "R2".to_string(), name: "staff".to_string(), topic: None, last_seen: 100 },
        Room::Direct { id: "R3".to_string(), last_seen: 100 },
    ])
}

fn client(command: Command) -> Message {
    Message { tags: None, prefix: None, command }
}

fn own(command: Command) -> Message {
    Message {
        tags: None,
        prefix: Some(Prefix::Nickname(
            "alice".to_string(),
            "a".to_string(),
            "10.0.0.7".to_string(),
        )),
        command,
    }
}

fn said(user: &str, command: Command) -> Action {
    Action::Reply(Message {
        tags: None,
        prefix: Some(Prefix::Nickname(user.to_string(), user.to_string(), HOST.to_string())),
        command,
    })
}

fn warn(warning: Warning) -> Vec<Action> {
    vec![Action::Warn(warning)]
}

fn numeric(server: &str, code: Response, args: Vec<&str>) -> Message {
    Message {
        tags: None,
        prefix: Some(Prefix::ServerName(server.to_string())),
        command: Command::Response(code, args.into_iter().map(String::from).collect()),
    }
}

fn event(t: Option<&str>, msg: &str, rid: &str, ts: u64, id: &str) -> RoomEventData {
    RoomEventData {
        t: t.map(String::from),
        msg: msg.to_string(),
        u: ShortUser { id: "u9".to_string(), username: "sender".to_string() },
        rid: rid.to_string(),
        ts,
        id: MessageId::new(id.to_string()),
        attachments: vec![],
    }
}

fn changed(data: RoomEventData, room_name: Option<&str>, room_type: char) -> ServerMessage {
    ServerMessage::Changed {
        event: Some(RoomEvent {
            data,
            extra: RoomExtraInfo { room_name: room_name.map(String::from), room_type },
        }),
    }
}

fn json(text: &str) -> serde_json::Value {
    serde_json::from_str(text).unwrap()
}

#[test]
fn listener_keeps_its_addresses() {
    let l = ProxyListener::new("0.0.0.0:6668".to_string(), HOST.to_string());
    assert_eq!(l.bind(), "0.0.0.0:6668");
    assert_eq!(l.backend(), HOST);
}

#[test]
fn client_info_as_prefix_and_hostmask() {
    assert_eq!(
        alice().prefix(),
        Prefix::Nickname("alice".to_string(), "a".to_string(), "10.0.0.7".to_string())
    );
    assert_eq!(alice().hostmask(), "alice!a@10.0.0.7");
    assert_eq!(
        alice().echo_back(Command::Nick("x".to_string())),
        own(Command::Nick("x".to_string()))
    );
}

#[test]
fn server_response_puts_the_user_first() {
    assert_eq!(
        server_response(HOST, "alice".to_string(), Response::Topic, vec!["#room".to_string(), "t".to_string()]),
        numeric(HOST, Response::Topic, vec!["alice", "#room", "t"])
    );
    assert_eq!(
        server_notice(HOST, "alice", "Backend connected".to_string()),
        Message {
            tags: None,
            prefix: Some(Prefix::ServerName(HOST.to_string())),
            command: Command::Notice("alice".to_string(), "Backend connected".to_string()),
        }
    );
}

#[test]
fn response_codes() {
    let all = [
        (Response::Welcome, 1),
        (Response::YourHost, 2),
        (Response::Topic, 332),
        (Response::NamReply, 353),
        (Response::EndOfNames, 366),
        (Response::UnknownCommand, 421),
        (Response::NicknameInUse, 433),
        (Response::PasswdMismatch, 464),
    ];
    for (r, n) in all {
        assert_eq!(r.code(), n);
        assert_eq!(Response::from_code(n), Some(r));
    }
    assert_eq!(Response::from_code(0), None);
    assert_eq!(Response::from_code(3), None);
    assert_eq!(Response::from_code(465), None);
}

#[test]
fn happy_handshake_is_welcomed_and_renamed() {
    let mut info = alice();
    let out = welcome(&mut info, HOST, "0.1.0", "alice_canon".to_string());
    assert_eq!(
        out,
        vec![
            numeric(HOST, Response::Welcome, vec!["alice", "Welcome to IRC alice!a@10.0.0.7"]),
            numeric(
                HOST,
                Response::YourHost,
                vec!["alice", "Your host is chat.example.com, running croquette v0.1.0"]
            ),
            own(Command::Nick("alice_canon".to_string())),
        ]
    );
    assert_eq!(info.nick, "alice_canon");
    assert_eq!(info.user, "a");
    assert_eq!(info.pass, "tok");
    assert_eq!(info.host, "10.0.0.7");
}

#[test]
fn welcome_without_rename_when_the_names_agree() {
    let mut info = alice();
    let out = welcome(&mut info, HOST, "0.1.0", "alice".to_string());
    assert_eq!(out.len(), 2);
    assert_eq!(info, alice());
}

#[test]
fn rejected_token_is_reported() {
    assert_eq!(
        login_rejected(&alice(), HOST),
        numeric(HOST, Response::PasswdMismatch, vec!["alice", "Backend server rejected token"])
    );
}

#[test]
fn rooms_are_announced() {
    let session = rooms();
    assert_eq!(
        announce_room(&alice(), HOST, session.room_by_id("R1").unwrap()),
        vec![
            own(Command::Join("#room".to_string(), None, None)),
            numeric(HOST, Response::Topic, vec!["alice", "#room", "welcome"]),
        ]
    );
    assert_eq!(
        announce_room(&alice(), HOST, session.room_by_id("R2").unwrap()),
        vec![own(Command::Join("#staff".to_string(), None, None))]
    );
    assert!(announce_room(&alice(), HOST, session.room_by_id("R3").unwrap()).is_empty());
}

#[test]
fn username_is_read_from_the_matching_frame() {
    let added = |collection: &str, id: &str, fields: Option<serde_json::Value>| ServerMessage::Added {
        collection: collection.to_string(),
        id: id.to_string(),
        fields,
    };
    let fields = json(r#"{"username": "alice_canon", "emails": []}"#);
    assert_eq!(
        recover_username(&added("users", "U1", Some(fields.clone())), "U1"),
        Some(Ok("alice_canon".to_string()))
    );
    assert_eq!(recover_username(&added("users", "U2", Some(fields.clone())), "U1"), None);
    assert_eq!(recover_username(&added("rooms", "U1", Some(fields)), "U1"), None);
    assert_eq!(recover_username(&ServerMessage::Updated, "U1"), None);
    assert_eq!(recover_username(&ServerMessage::Other, "U1"), None);
    assert_eq!(recover_username(&ServerMessage::Changed { event: None }, "U1"), None);
}

#[test]
fn username_errors() {
    assert_eq!(username_of(None), Err(UsernameError::FieldsMissing));
    assert_eq!(username_of(Some(&json("[1, 2]"))), Err(UsernameError::NotAnObject));
    assert_eq!(username_of(Some(&json("\"alice\""))), Err(UsernameError::NotAnObject));
    assert_eq!(username_of(Some(&json("null"))), Err(UsernameError::NotAnObject));
    assert_eq!(username_of(Some(&json(r#"{"name": "x"}"#))), Err(UsernameError::UsernameMissing));
    assert_eq!(username_of(Some(&json(r#"{"username": 7}"#))), Err(UsernameError::NotAString));
    assert_eq!(username_of(Some(&json(r#"{"username": null}"#))), Err(UsernameError::NotAString));
    assert_eq!(username_of(Some(&json(r#"{"username": "bob"}"#))), Ok("bob".to_string()));
    assert_eq!(username_of(Some(&json(r#"{"username": ""}"#))), Ok(String::new()));
    let failed = ServerMessage::Added {
        collection: "users".to_string(),
        id: "U1".to_string(),
        fields: None,
    };
    assert_eq!(recover_username(&failed, "U1"), Some(Err(UsernameError::FieldsMissing)));
}

#[test]
fn username_from_member_decides_by_shape() {
    assert_eq!(username_from_member(false, None), Err(UsernameError::NotAnObject));
    assert_eq!(
        username_from_member(false, Some(Some("x".to_string()))),
        Err(UsernameError::NotAnObject)
    );
    assert_eq!(username_from_member(true, None), Err(UsernameError::UsernameMissing));
    assert_eq!(username_from_member(true, Some(None)), Err(UsernameError::NotAString));
    assert_eq!(username_from_member(true, Some(Some("x".to_string()))), Ok("x".to_string()));
}

#[test]
fn join_with_fewer_keys_than_channels() {
    let mut proxy = Proxy::new(alice(), rooms(), HOST.to_string(), || MessageId::new("m".to_string()));
    let out = proxy.handle_client_message(client(Command::Join(
        "#a,#b,#c".to_string(),
        Some("k1".to_string()),
        None,
    )));
    let join = |channel: &str, name: &str, key: Option<&str>| {
        Action::Call(Request::Join {
            channel: channel.to_string(),
            name: name.to_string(),
            key: key.map(String::from),
        })
    };
    assert_eq!(out, vec![join("#a", "a", Some("k1")), join("#b", "b", None), join("#c", "c", None)]);
    for action in &out {
        if let Action::Call(request) = action {
            let channel = match request {
                Request::Join { channel, .. } => channel.clone(),
                _ => panic!("not a join"),
            };
            assert_eq!(
                proxy.completed(request, true),
                Some(own(Command::Join(channel, None, None)))
            );
            assert_eq!(proxy.completed(request, false), None);
        }
    }
}

#[test]
fn join_passes_over_targets_that_are_no_channels() {
    let mut proxy = Proxy::new(alice(), rooms(), HOST.to_string(), || MessageId::new("m".to_string()));
    let out = proxy.handle_client_message(client(Command::Join(
        "bob,#x,,&y".to_string(),
        Some("k1,k2,k3".to_string()),
        None,
    )));
    assert_eq!(
        out,
        vec![
            Action::Warn(Warning::NotAChannel("bob".to_string())),
            Action::Call(Request::Join {
                channel: "#x".to_string(),
                name: "x".to_string(),
                key: Some("k2".to_string())
            }),
            Action::Warn(Warning::NotAChannel(String::new())),
            Action::Warn(Warning::NotAChannel("&y".to_string())),
        ]
    );
    assert_eq!(
        proxy.handle_client_message(client(Command::Join(String::new(), None, None))),
        warn(Warning::NotAChannel(String::new()))
    );
}

#[test]
fn part_leaves_each_channel() {
    let mut proxy = Proxy::new(alice(), rooms(), HOST.to_string(), || MessageId::new("m".to_string()));
    let out = proxy.handle_client_message(client(Command::Part(
        "#a,bob,#b".to_string(),
        Some("bye".to_string()),
    )));
    let leave = |channel: &str, name: &str| {
        Action::Call(Request::Leave { channel: channel.to_string(), name: name.to_string() })
    };
    assert_eq!(out, vec![leave("#a", "a"), leave("#b", "b")]);
    let request = Request::Leave { channel: "#a".to_string(), name: "a".to_string() };
    assert_eq!(proxy.completed(&request, true), Some(own(Command::Part("#a".to_string(), None))));
    assert_eq!(proxy.completed(&request, false), None);
}

#[test]
fn nick_change_is_refused() {
    let mut proxy = Proxy::new(alice(), rooms(), HOST.to_string(), || MessageId::new("m".to_string()));
    assert_eq!(
        proxy.handle_client_message(client(Command::Nick("al".to_string()))),
        vec![Action::Reply(numeric(
            HOST,
            Response::NicknameInUse,
            vec!["alice", "Can't change your nick in rocket, sorry :("]
        ))]
    );
    assert_eq!(proxy.clientinfo(), &alice());
}

#[test]
fn ping_is_answered_with_the_same_arguments() {
    let mut proxy = Proxy::new(alice(), rooms(), HOST.to_string(), || MessageId::new("m".to_string()));
    let pong = |a: &str, b: Option<&str>| {
        vec![Action::Reply(Message {
            tags: None,
            prefix: Some(Prefix::ServerName(HOST.to_string())),
            command: Command::Pong(a.to_string(), b.map(String::from)),
        })]
    };
    assert_eq!(
        proxy.handle_client_message(client(Command::Ping("t1".to_string(), None))),
        pong("t1", None)
    );
    assert_eq!(
        proxy.handle_client_message(client(Command::Ping("t1".to_string(), Some("t2".to_string())))),
        pong("t1", Some("t2"))
    );
}

#[test]
fn away_sets_the_state() {
    let mut proxy = Proxy::new(alice(), rooms(), HOST.to_string(), || MessageId::new("m".to_string()));
    assert_eq!(
        proxy.handle_client_message(client(Command::Away(Some("lunch".to_string())))),
        vec![Action::Call(Request::SetAway { away: true })]
    );
    assert_eq!(
        proxy.handle_client_message(client(Command::Away(None))),
        vec![Action::Call(Request::SetAway { away: false })]
    );
    assert_eq!(proxy.completed(&Request::SetAway { away: true }, true), None);
}

#[test]
fn unknown_commands_are_answered_with_421() {
    let mut proxy = Proxy::new(alice(), rooms(), HOST.to_string(), || MessageId::new("m".to_string()));
    let commands = vec![
        Command::Raw("WHOIS".to_string(), vec!["bob".to_string()]),
        Command::Pass("x".to_string()),
        Command::Notice("#room".to_string(), "x".to_string()),
        Command::Pong("x".to_string(), None),
        Command::User("u".to_string(), "0".to_string(), "U".to_string()),
    ];
    for command in commands {
        assert_eq!(
            proxy.handle_client_message(client(command.clone())),
            vec![
                Action::Warn(Warning::UnsupportedCommand(command)),
                Action::Reply(numeric(
                    HOST,
                    Response::UnknownCommand,
                    vec!["alice", "Command unsupported by Croquette"],
                )),
            ]
        );
    }
}

#[test]
fn round_trip_topic() {
    let mut proxy = Proxy::new(alice(), rooms(), HOST.to_string(), || MessageId::new("m".to_string()));
    let out = proxy.handle_client_message(client(Command::Topic(
        "#room".to_string(),
        Some("hello".to_string()),
    )));
    let request = Request::SetTopic {
        channel: "#room".to_string(),
        rid: "R1".to_string(),
        topic: Some("hello".to_string()),
    };
    assert_eq!(out, vec![Action::Call(request.clone())]);
    assert_eq!(
        proxy.completed(&request, true),
        Some(own(Command::Topic("#room".to_string(), Some("hello".to_string()))))
    );
    assert_eq!(proxy.completed(&request, false), None);
}

#[test]
fn topic_of_unknown_targets_is_dropped() {
    let mut proxy = Proxy::new(alice(), rooms(), HOST.to_string(), || MessageId::new("m".to_string()));
    assert!(proxy
        .handle_client_message(client(Command::Topic("#nowhere".to_string(), Some("x".to_string()))))
        .is_empty());
    assert!(proxy
        .handle_client_message(client(Command::Topic("room".to_string(), Some("x".to_string()))))
        .is_empty());
}

#[test]
fn echo_suppression() {
    let n = Cell::new(0u32);
    let mut proxy = Proxy::new(alice(), rooms(), HOST.to_string(), || {
        n.set(n.get() + 1);
        MessageId::new(format!("M{}", n.get()))
    });
    let out = proxy.handle_client_message(client(Command::Privmsg("#room".to_string(), "hi".to_string())));
    assert_eq!(
        out,
        vec![Action::Call(Request::SendMessage {
            id: MessageId::new("M1".to_string()),
            rid: "R1".to_string(),
            text: "hi".to_string()
        })]
    );
    let echo = changed(event(None, "hi", "R1", 101, "M1"), Some("room"), 'c');
    assert!(proxy.handle_server_message(echo).is_empty());
    let foreign = changed(event(None, "hi", "R1", 101, "M7"), Some("room"), 'c');
    assert_eq!(
        proxy.handle_server_message(foreign),
        vec![said("sender", Command::Privmsg("#room".to_string(), "hi".to_string()))]
    );
}

#[test]
fn echo_suppression_lasts_for_256_sends() {
    let n = Cell::new(0u32);
    let mut proxy = Proxy::new(alice(), rooms(), HOST.to_string(), || {
        n.set(n.get() + 1);
        MessageId::new(format!("M{}", n.get()))
    });
    for _ in 0..256 {
        proxy.handle_client_message(client(Command::Privmsg("#room".to_string(), "x".to_string())));
    }
    let first = || changed(event(None, "x", "R1", 101, "M1"), Some("room"), 'c');
    assert!(proxy.handle_server_message(first()).is_empty());
    proxy.handle_client_message(client(Command::Privmsg("#room".to_string(), "x".to_string())));
    assert_eq!(proxy.handle_server_message(first()).len(), 1);
    let second = changed(event(None, "x", "R1", 101, "M2"), Some("room"), 'c');
    assert!(proxy.handle_server_message(second).is_empty());
}

#[test]
fn message_to_an_unknown_channel_is_dropped() {
    let n = Cell::new(0u32);
    let mut proxy = Proxy::new(alice(), rooms(), HOST.to_string(), || {
        n.set(n.get() + 1);
        MessageId::new(format!("M{}", n.get()))
    });
    assert!(proxy
        .handle_client_message(client(Command::Privmsg("#nowhere".to_string(), "hi".to_string())))
        .is_empty());
    assert_eq!(n.get(), 0);
}

#[test]
fn message_to_a_nick_opens_a_direct_room() {
    let n = Cell::new(0u32);
    let mut proxy = Proxy::new(alice(), rooms(), HOST.to_string(), || {
        n.set(n.get() + 1);
        MessageId::new(format!("M{}", n.get()))
    });
    let out = proxy.handle_client_message(client(Command::Privmsg("bob".to_string(), "psst".to_string())));
    assert_eq!(
        out,
        vec![Action::Call(Request::OpenDirect { nick: "bob".to_string(), text: "psst".to_string() })]
    );
    assert_eq!(n.get(), 0);
    assert!(proxy.direct_opened(None, "psst".to_string()).is_empty());
    assert_eq!(n.get(), 0);
    let room = Room::Direct { id: "R7".to_string(), last_seen: 0 };
    assert_eq!(
        proxy.direct_opened(Some(room.clone()), "psst".to_string()),
        vec![Action::Call(Request::SendMessage {
            id: MessageId::new("M1".to_string()),
            rid: "R7".to_string(),
            text: "psst".to_string()
        })]
    );
    assert_eq!(proxy.session().room_by_id("R7"), Some(&room));
    let newer = Room::Direct { id: "R7".to_string(), last_seen: 50 };
    proxy.direct_opened(Some(newer), "again".to_string());
    assert_eq!(proxy.session().room_by_id("R7"), Some(&room));
    assert_eq!(proxy.session().rooms().len(), 4);
    let answer = changed(event(None, "yes?", "R7", 5, "X1"), None, 'd');
    assert_eq!(
        proxy.handle_server_message(answer),
        vec![said("sender", Command::Privmsg("alice".to_string(), "yes?".to_string()))]
    );
}

#[test]
fn inbound_attachment_only() {
    let proxy = Proxy::new(alice(), rooms(), HOST.to_string(), || MessageId::new("m".to_string()));
    let mut data = event(None, "", "R1", 101, "X1");
    data.attachments = vec![Attachment {
        title: Some("pic".to_string()),
        image_url: Some("http://x/y".to_string()),
    }];
    assert_eq!(
        proxy.handle_server_message(changed(data, Some("room"), 'c')),
        vec![said(
            "sender",
            Command::Privmsg("#room".to_string(), "\u{1}ACTION [pic](http://x/y)\u{1}".to_string())
        )]
    );
}

#[test]
fn text_comes_before_attachments() {
    let proxy = Proxy::new(alice(), rooms(), HOST.to_string(), || MessageId::new("m".to_string()));
    let mut data = event(None, "look", "R2", 101, "X1");
    data.attachments = vec![
        Attachment { title: Some("pic".to_string()), image_url: None },
        Attachment { title: None, image_url: Some("http://x/z".to_string()) },
        Attachment { title: None, image_url: None },
    ];
    let action = |what: &str| {
        said("sender", Command::Privmsg("#staff".to_string(), format!("\u{1}ACTION {}\u{1}", what)))
    };
    assert_eq!(
        proxy.handle_server_message(changed(data, Some("staff"), 'p')),
        vec![
            said("sender", Command::Privmsg("#staff".to_string(), "look".to_string())),
            action("[pic]"),
            action("http://x/z"),
            action("<UNKNOWN ATTACHMENT>"),
        ]
    );
}

#[test]
fn attachments_are_described() {
    let a = |title: Option<&str>, url: Option<&str>| Attachment {
        title: title.map(String::from),
        image_url: url.map(String::from),
    };
    assert_eq!(describe(&a(Some("pic"), Some("http://x/y"))), "[pic](http://x/y)");
    assert_eq!(describe(&a(Some("pic"), None)), "[pic]");
    assert_eq!(describe(&a(None, Some("http://x/y"))), "http://x/y");
    assert_eq!(describe(&a(None, None)), "<UNKNOWN ATTACHMENT>");
}

#[test]
fn topic_change() {
    let proxy = Proxy::new(alice(), rooms(), HOST.to_string(), || MessageId::new("m".to_string()));
    let mut data = event(Some("room_changed_topic"), "new topic", "R9", 0, "X1");
    data.u.username = "carol".to_string();
    assert_eq!(
        proxy.handle_server_message(changed(data, Some("general"), 'c')),
        vec![said("carol", Command::Topic("#general".to_string(), Some("new topic".to_string())))]
    );
}

#[test]
fn user_left_becomes_part() {
    let proxy = Proxy::new(alice(), rooms(), HOST.to_string(), || MessageId::new("m".to_string()));
    let data = event(Some("ul"), "sender", "R2", 0, "X1");
    assert_eq!(
        proxy.handle_server_message(changed(data, Some("staff"), 'p')),
        vec![said("sender", Command::Part("#staff".to_string(), None))]
    );
}

#[test]
fn stale_and_unknown_rooms_are_dropped() {
    let proxy = Proxy::new(alice(), rooms(), HOST.to_string(), || MessageId::new("m".to_string()));
    let at = |rid: &str, ts: u64| changed(event(None, "hi", rid, ts, "X1"), Some("room"), 'c');
    assert_eq!(proxy.handle_server_message(at("R1", 100)), warn(Warning::NotNew));
    assert_eq!(proxy.handle_server_message(at("R1", 99)), warn(Warning::NotNew));
    assert_eq!(
        proxy.handle_server_message(at("R1", 101)),
        vec![said("sender", Command::Privmsg("#room".to_string(), "hi".to_string()))]
    );
    assert_eq!(proxy.handle_server_message(at("R8", 101)), warn(Warning::NotNew));
}

#[test]
fn events_without_a_target_are_dropped() {
    let proxy = Proxy::new(alice(), rooms(), HOST.to_string(), || MessageId::new("m".to_string()));
    let cases = vec![
        changed(event(None, "hi", "R1", 101, "X"), None, 'c'),
        changed(event(None, "hi", "R3", 101, "X"), Some("odd"), 'd'),
        changed(event(None, "hi", "R1", 101, "X"), Some("room"), 'l'),
        changed(event(Some("ul"), "hi", "R3", 101, "X"), None, 'l'),
    ];
    for case in cases {
        assert_eq!(proxy.handle_server_message(case), warn(Warning::NoTarget));
    }
}

#[test]
fn echo_of_a_stale_event_is_still_no_news() {
    let n = Cell::new(0u32);
    let mut proxy = Proxy::new(alice(), rooms(), HOST.to_string(), || {
        n.set(n.get() + 1);
        MessageId::new(format!("M{}", n.get()))
    });
    proxy.handle_client_message(client(Command::Privmsg("#room".to_string(), "hi".to_string())));
    let stale = changed(event(None, "hi", "R1", 100, "M1"), Some("room"), 'c');
    assert_eq!(proxy.handle_server_message(stale), warn(Warning::NotNew));
}

#[test]
fn direct_message_goes_to_the_own_nick() {
    let proxy = Proxy::new(alice(), rooms(), HOST.to_string(), || MessageId::new("m".to_string()));
    assert_eq!(
        proxy.handle_server_message(changed(event(None, "psst", "R3", 101, "X"), None, 'd')),
        vec![said("sender", Command::Privmsg("alice".to_string(), "psst".to_string()))]
    );
    // a topic tag in a direct conversation is no topic change
    assert_eq!(
        proxy.handle_server_message(changed(
            event(Some("room_changed_topic"), "psst", "R3", 101, "X"),
            None,
            'd'
        )),
        vec![said("sender", Command::Privmsg("alice".to_string(), "psst".to_string()))]
    );
}

#[test]
fn blank_text_is_not_passed_on() {
    let proxy = Proxy::new(alice(), rooms(), HOST.to_string(), || MessageId::new("m".to_string()));
    assert!(proxy
        .handle_server_message(changed(event(None, "  \n\t ", "R1", 101, "X"), Some("room"), 'c'))
        .is_empty());
    assert_eq!(
        proxy.handle_server_message(changed(event(None, " hi ", "R1", 101, "X"), Some("room"), 'c')),
        vec![said("sender", Command::Privmsg("#room".to_string(), " hi ".to_string()))]
    );
}

#[test]
fn other_frames_are_ignored() {
    let proxy = Proxy::new(alice(), rooms(), HOST.to_string(), || MessageId::new("m".to_string()));
    assert!(proxy.handle_server_message(ServerMessage::Updated).is_empty());
    assert_eq!(
        proxy.handle_server_message(ServerMessage::Other),
        warn(Warning::UnsupportedFrame)
    );
    assert_eq!(
        proxy.handle_server_message(ServerMessage::Changed { event: None }),
        warn(Warning::UnsupportedFrame)
    );
    assert_eq!(
        proxy.handle_server_message(ServerMessage::Added {
            collection: "users".to_string(),
            id: "U1".to_string(),
            fields: None
        }),
        warn(Warning::UnsupportedFrame)
    );
}

#[test]
fn rooms_can_be_added_and_removed() {
    let mut proxy = Proxy::new(alice(), rooms(), HOST.to_string(), || MessageId::new("m".to_string()));
    let room = Room::Chat { id: "R5".to_string(), name: "new".to_string(), topic: None, last_seen: 0 };
    proxy.insert_room(room.clone());
    assert_eq!(proxy.session().room_by_name("new"), Some(&room));
    assert!(proxy.remove_room("R5"));
    assert!(!proxy.remove_room("R5"));
    assert_eq!(proxy.session().room_by_name("new"), None);
    assert_eq!(proxy.server_addr(), HOST);
    assert_eq!(
        proxy.respond(Response::Topic, vec!["#room".to_string()]),
        numeric(HOST, Response::Topic, vec!["alice", "#room"])
    );
}

#[test]
fn numeric_replies_come_from_the_backend_host() {
    let mut info = alice();
    let session = rooms();
    let mut all = welcome(&mut info, "rocket.example.org", "0.1.0", "alice".to_string());
    all.push(login_rejected(&alice(), "rocket.example.org"));
    all.extend(announce_room(&alice(), "rocket.example.org", session.room_by_id("R1").unwrap()));
    let mut numerics = 0;
    for m in all {
        if let Command::Response(..) = m.command {
            assert_eq!(m.prefix, Some(Prefix::ServerName("rocket.example.org".to_string())));
            numerics += 1;
        }
    }
    assert_eq!(numerics, 4);
}
