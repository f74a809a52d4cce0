use signal_tui::signal::client::{
    is_blank, mime_to_ext, normalize, parse_attachment, parse_error_event, parse_receive_event,
    parse_sent_sync, send_sync_request, PendingRequests,
};
use signal_tui::signal::json::Json;
use signal_tui::signal::types::{JsonRpcError, JsonRpcResponse, SignalEvent};

fn text(s: &str) -> Json {
    Json::Text(s.to_string())
}

fn object(members: Vec<(&str, Json)>) -> Json {
    Json::Object(members.into_iter().map(|(k, v)| (k.to_string(), v)).collect())
}

fn envelope(members: Vec<(&str, Json)>) -> Json {
    object(vec![("envelope", object(members))])
}

fn reply(id: &str, result: Option<Json>, error: Option<JsonRpcError>) -> JsonRpcResponse {
    JsonRpcResponse {
        jsonrpc: "2.0".to_string(),
        id: Some(id.to_string()),
        result,
        error,
        method: None,
        params: None,
    }
}

fn notification(params: Json) -> JsonRpcResponse {
    JsonRpcResponse {
        jsonrpc: "2.0".to_string(),
        id: None,
        result: None,
        error: None,
        method: Some("receive".to_string()),
        params: Some(params),
    }
}

#[test]
fn typing_started_and_stopped() {
    let started = envelope(vec![
        ("sourceNumber", text("+1")),
        ("sourceName", text("Alice")),
        ("typingMessage", object(vec![("action", text("STARTED"))])),
    ]);
    match parse_receive_event(&started).unwrap() {
        SignalEvent::TypingIndicator { sender, sender_name, is_typing } => {
            assert_eq!(sender, "+1");
            assert_eq!(sender_name.as_deref(), Some("Alice"));
            assert!(is_typing);
        }
        other => panic!("unexpected {:?}", other),
    }
    let stopped = envelope(vec![
        ("sourceName", text("")),
        ("typingMessage", object(vec![("action", text("STOPPED"))])),
    ]);
    match parse_receive_event(&stopped).unwrap() {
        SignalEvent::TypingIndicator { sender, sender_name, is_typing } => {
            assert_eq!(sender, "unknown");
            assert_eq!(sender_name, None);
            assert!(!is_typing);
        }
        other => panic!("unexpected {:?}", other),
    }
}

#[test]
fn typing_is_tried_before_receipt_and_data() {
    let both = envelope(vec![
        ("dataMessage", object(vec![("message", text("hi"))])),
        ("receiptMessage", object(vec![("type", text("READ"))])),
        ("typingMessage", object(vec![])),
    ]);
    assert!(matches!(
        parse_receive_event(&both),
        Some(SignalEvent::TypingIndicator { is_typing: false, .. })
    ));
}

#[test]
fn receipt_keeps_only_integer_timestamps() {
    let receipt = envelope(vec![(
        "receiptMessage",
        object(vec![(
            "timestamps",
            Json::Array(vec![Json::Int(5), text("6"), Json::Number, Json::Null, Json::Int(7)]),
        )]),
    )]);
    match parse_receive_event(&receipt).unwrap() {
        SignalEvent::ReceiptReceived { sender, receipt_type, timestamps } => {
            assert_eq!(sender, "unknown");
            assert_eq!(receipt_type, "");
            assert_eq!(timestamps, vec![5, 7]);
        }
        other => panic!("unexpected {:?}", other),
    }
}

#[test]
fn data_message_with_group_and_attachment() {
    let params = envelope(vec![
        ("sourceNumber", text("+15551234567")),
        ("sourceName", text("Alice")),
        (
            "dataMessage",
            object(vec![
                ("timestamp", Json::Int(1700000000123)),
                ("message", text("look")),
                (
                    "groupInfo",
                    object(vec![("groupId", text("g1")), ("groupName", text("Family"))]),
                ),
                (
                    "attachments",
                    Json::Array(vec![
                        object(vec![
                            ("id", text("abcdefghijkl")),
                            ("contentType", text("image/png")),
                            ("file", text("/tmp/x.png")),
                        ]),
                        object(vec![("contentType", text("image/png"))]),
                    ]),
                ),
            ]),
        ),
    ]);
    match parse_receive_event(&params).unwrap() {
        SignalEvent::MessageReceived(m) => {
            assert_eq!(m.source, "+15551234567");
            assert_eq!(m.source_name.as_deref(), Some("Alice"));
            assert_eq!(m.timestamp, 1700000000123);
            assert_eq!(m.body.as_deref(), Some("look"));
            assert_eq!(m.group_id.as_deref(), Some("g1"));
            assert_eq!(m.group_name.as_deref(), Some("Family"));
            assert!(!m.is_outgoing);
            assert_eq!(m.destination, None);
            assert_eq!(m.attachments.len(), 1);
            assert_eq!(m.attachments[0].id, "abcdefghijkl");
            assert_eq!(m.attachments[0].filename.as_deref(), Some("efghijkl.png"));
            assert_eq!(m.attachments[0].local_path.as_deref(), Some("/tmp/x.png"));
        }
        other => panic!("unexpected {:?}", other),
    }
}

#[test]
fn timestamp_out_of_range_becomes_epoch() {
    let params = envelope(vec![(
        "dataMessage",
        object(vec![("timestamp", Json::Int(i64::MAX)), ("message", text("x"))]),
    )]);
    match parse_receive_event(&params).unwrap() {
        SignalEvent::MessageReceived(m) => assert_eq!(m.timestamp, 0),
        other => panic!("unexpected {:?}", other),
    }
    let params = envelope(vec![("dataMessage", object(vec![("timestamp", Json::Int(-1))]))]);
    match parse_receive_event(&params).unwrap() {
        SignalEvent::MessageReceived(m) => {
            assert_eq!(m.timestamp, -1);
            assert_eq!(m.body, None);
        }
        other => panic!("unexpected {:?}", other),
    }
    let params = envelope(vec![("dataMessage", object(vec![]))]);
    match parse_receive_event(&params).unwrap() {
        SignalEvent::MessageReceived(m) => assert_eq!(m.timestamp, 0),
        other => panic!("unexpected {:?}", other),
    }
}

#[test]
fn sync_message_is_outgoing_with_destination() {
    let sent = object(vec![
        ("destinationNumber", text("+2")),
        ("destination", text("ignored")),
        ("timestamp", Json::Int(42)),
        ("message", text("from my phone")),
    ]);
    let env = object(vec![
        ("sourceNumber", text("+10000000000")),
        ("sourceName", text("Me")),
        ("syncMessage", object(vec![("sentMessage", sent)])),
    ]);
    match parse_receive_event(&object(vec![("envelope", env)])).unwrap() {
        SignalEvent::MessageReceived(m) => {
            assert!(m.is_outgoing);
            assert_eq!(m.destination.as_deref(), Some("+2"));
            assert_eq!(m.source, "+10000000000");
            assert_eq!(m.source_name, None);
            assert_eq!(m.timestamp, 42);
            assert_eq!(m.body.as_deref(), Some("from my phone"));
        }
        other => panic!("unexpected {:?}", other),
    }
}

#[test]
fn sync_destination_falls_back_only_when_number_is_missing() {
    let env = object(vec![]);
    let with_null = object(vec![("destinationNumber", Json::Null), ("destination", text("+3"))]);
    match parse_sent_sync(&env, &with_null).unwrap() {
        SignalEvent::MessageReceived(m) => assert_eq!(m.destination, None),
        other => panic!("unexpected {:?}", other),
    }
    let without = object(vec![("destination", text("+3"))]);
    match parse_sent_sync(&env, &without).unwrap() {
        SignalEvent::MessageReceived(m) => assert_eq!(m.destination.as_deref(), Some("+3")),
        other => panic!("unexpected {:?}", other),
    }
}

#[test]
fn other_sync_messages_are_dropped() {
    let params = envelope(vec![("syncMessage", object(vec![("readMessages", Json::Array(vec![]))]))]);
    assert!(parse_receive_event(&params).is_none());
}

#[test]
fn exception_surfaces_unless_known() {
    let known = object(vec![(
        "exception",
        object(vec![("message", text("x: SyncMessage missing destination!"))]),
    )]);
    assert!(parse_receive_event(&known).is_none());
    let other = object(vec![("exception", object(vec![("message", text("boom"))]))]);
    match parse_receive_event(&other).unwrap() {
        SignalEvent::Error(e) => assert_eq!(e, "signal-cli: boom"),
        other => panic!("unexpected {:?}", other),
    }
    let nameless = object(vec![("exception", Json::Null), ("envelope", object(vec![]))]);
    match parse_receive_event(&nameless).unwrap() {
        SignalEvent::Error(e) => assert_eq!(e, "signal-cli: unknown error"),
        other => panic!("unexpected {:?}", other),
    }
}

#[test]
fn unhandled_envelope_names_substantive_members() {
    let only_routing = envelope(vec![
        ("source", text("a")),
        ("sourceNumber", text("+1")),
        ("sourceName", text("A")),
        ("sourceUuid", text("u")),
        ("sourceDevice", Json::Int(1)),
        ("timestamp", Json::Int(1)),
        ("serverReceivedTimestamp", Json::Int(1)),
        ("serverDeliveredTimestamp", Json::Int(1)),
        ("relay", Json::Null),
    ]);
    assert!(parse_receive_event(&only_routing).is_none());
    let with_more = envelope(vec![
        ("callMessage", object(vec![])),
        ("sourceNumber", text("+1")),
        ("storyMessage", object(vec![])),
    ]);
    match parse_receive_event(&with_more).unwrap() {
        SignalEvent::Error(e) => assert_eq!(e, "unhandled envelope type: callMessage, storyMessage"),
        other => panic!("unexpected {:?}", other),
    }
    assert!(parse_receive_event(&object(vec![])).is_none());
    assert!(parse_receive_event(&object(vec![("envelope", text("no object"))])).is_none());
}

#[test]
fn attachment_names() {
    let plain = object(vec![("id", text("abc")), ("filename", text("photo.jpg"))]);
    let a = parse_attachment(&plain).unwrap();
    assert_eq!(a.content_type, "application/octet-stream");
    assert_eq!(a.filename.as_deref(), Some("photo.jpg"));
    assert_eq!(a.local_path, None);

    let doubled = object(vec![("id", text("abc")), ("filename", text("photo.jpg.jpg"))]);
    assert_eq!(parse_attachment(&doubled).unwrap().filename.as_deref(), Some("photo.jpg"));

    let dotted = object(vec![("id", text("abc")), ("filename", text("a.b.jpg"))]);
    assert_eq!(parse_attachment(&dotted).unwrap().filename.as_deref(), Some("a.b.jpg"));

    let short = object(vec![("id", text("12345678")), ("contentType", text("audio/ogg"))]);
    assert_eq!(parse_attachment(&short).unwrap().filename.as_deref(), Some("12345678.ogg"));

    let long = object(vec![("id", text("0123456789")), ("contentType", text("video/mp4"))]);
    assert_eq!(parse_attachment(&long).unwrap().filename.as_deref(), Some("23456789.mp4"));

    let unknown = object(vec![("id", text("x")), ("contentType", text("application/zip"))]);
    assert_eq!(parse_attachment(&unknown).unwrap().filename.as_deref(), Some("x.bin"));

    let accents = object(vec![("id", text("\u{e9}\u{e9}\u{e9}\u{e9}\u{e9}")), ("contentType", text("text/plain"))]);
    assert_eq!(
        parse_attachment(&accents).unwrap().filename.as_deref(),
        Some("\u{e9}\u{e9}\u{e9}\u{e9}.txt")
    );

    let cut_inside = object(vec![("id", text("a\u{e9}\u{e9}\u{e9}\u{e9}")), ("contentType", text("text/plain"))]);
    assert_eq!(
        parse_attachment(&cut_inside).unwrap().filename.as_deref(),
        Some("\u{e9}\u{e9}\u{e9}\u{e9}.txt")
    );

    let not_on_boundary = object(vec![("id", text("ab\u{20ac}\u{20ac}\u{20ac}")), ("contentType", text("text/plain"))]);
    assert_eq!(
        parse_attachment(&not_on_boundary).unwrap().filename.as_deref(),
        Some("ab\u{20ac}\u{20ac}\u{20ac}.txt")
    );

    assert!(parse_attachment(&object(vec![("filename", text("x"))])).is_none());
    assert!(parse_attachment(&object(vec![("id", Json::Int(3))])).is_none());
}

#[test]
fn mime_types() {
    assert_eq!(mime_to_ext("image/jpeg"), "jpg");
    assert_eq!(mime_to_ext("image/png"), "png");
    assert_eq!(mime_to_ext("image/gif"), "gif");
    assert_eq!(mime_to_ext("image/webp"), "webp");
    assert_eq!(mime_to_ext("video/mp4"), "mp4");
    assert_eq!(mime_to_ext("video/quicktime"), "mov");
    assert_eq!(mime_to_ext("audio/mpeg"), "mp3");
    assert_eq!(mime_to_ext("audio/ogg"), "ogg");
    assert_eq!(mime_to_ext("audio/aac"), "aac");
    assert_eq!(mime_to_ext("application/pdf"), "pdf");
    assert_eq!(mime_to_ext("text/plain"), "txt");
    assert_eq!(mime_to_ext("IMAGE/PNG"), "bin");
    assert_eq!(mime_to_ext(""), "bin");
}

#[test]
fn reply_is_resolved_exactly_once() {
    let mut pending = PendingRequests::new();
    pending.register("id-1".to_string(), "send".to_string());
    pending.register("id-2".to_string(), "listGroups".to_string());

    let confirmation = reply("id-1", Some(object(vec![("timestamp", Json::Int(77))])), None);
    match pending.on_response(&confirmation).unwrap() {
        SignalEvent::SendTimestamp { rpc_id, server_ts } => {
            assert_eq!(rpc_id, "id-1");
            assert_eq!(server_ts, 77);
        }
        other => panic!("unexpected {:?}", other),
    }
    assert!(pending.on_response(&confirmation).is_none());
    assert_eq!(pending.resolve("id-1"), None);
    assert_eq!(pending.resolve("id-2").as_deref(), Some("listGroups"));
    assert_eq!(pending.resolve("id-2"), None);
}

#[test]
fn unknown_id_is_a_notification() {
    let mut pending = PendingRequests::new();
    let mut line = notification(envelope(vec![("dataMessage", object(vec![("message", text("hi"))]))]));
    line.id = Some("never-issued".to_string());
    assert!(matches!(pending.on_response(&line), Some(SignalEvent::MessageReceived(_))));
    line.method = Some("other".to_string());
    assert!(pending.on_response(&line).is_none());
}

#[test]
fn error_reply_fails_send_and_is_dropped_otherwise() {
    let failure = || Some(JsonRpcError { code: -1, message: "rejected".to_string() });
    let failed = reply("r", Some(Json::Int(5)), failure());
    match normalize(&failed, Some("send")).unwrap() {
        SignalEvent::SendFailed { rpc_id } => assert_eq!(rpc_id, "r"),
        other => panic!("unexpected {:?}", other),
    }
    assert!(normalize(&failed, Some("listContacts")).is_none());
    let mut without_id = reply("r", None, failure());
    without_id.id = None;
    assert!(normalize(&without_id, Some("send")).is_none());
}

#[test]
fn send_confirmation_timestamp_defaults() {
    match normalize(&reply("r", Some(Json::Int(9)), None), Some("send")).unwrap() {
        SignalEvent::SendTimestamp { server_ts, .. } => assert_eq!(server_ts, 9),
        other => panic!("unexpected {:?}", other),
    }
    match normalize(&reply("r", Some(object(vec![("timestamp", text("9"))])), None), Some("send"))
        .unwrap()
    {
        SignalEvent::SendTimestamp { server_ts, .. } => assert_eq!(server_ts, 0),
        other => panic!("unexpected {:?}", other),
    }
    assert!(normalize(&reply("r", None, None), Some("send")).is_none());
}

#[test]
fn blank_lines_and_parse_errors() {
    assert!(is_blank(""));
    assert!(is_blank(" \t\r\n"));
    assert!(!is_blank(" {} "));
    match parse_error_event("expected value at line 1 column 1") {
        SignalEvent::Error(e) => assert_eq!(e, "JSON parse error: expected value at line 1 column 1"),
        other => panic!("unexpected {:?}", other),
    }
}

#[test]
fn requests_carry_method_id_and_params() {
    let mut pending = PendingRequests::new();
    let direct = pending.send_request("id-1".to_string(), "+10", "+2", "hello", false);
    assert_eq!(direct.jsonrpc, "2.0");
    assert_eq!(direct.method, "send");
    assert_eq!(direct.id, "id-1");
    assert_eq!(
        direct.params,
        Some(object(vec![
            ("recipient", Json::Array(vec![text("+2")])),
            ("message", text("hello")),
            ("account", text("+10")),
        ]))
    );
    let group = pending.send_request("id-2".to_string(), "+10", "g1", "hi all", true);
    assert_eq!(
        group.params,
        Some(object(vec![("groupId", text("g1")), ("message", text("hi all")), ("account", text("+10"))]))
    );
    let groups = pending.list_groups_request("id-3".to_string(), "+10");
    assert_eq!(groups.method, "listGroups");
    assert_eq!(groups.params, Some(object(vec![("account", text("+10"))])));
    let contacts = pending.list_contacts_request("id-4".to_string(), "+10");
    assert_eq!(contacts.method, "listContacts");
    assert_eq!(pending.resolve("id-1").as_deref(), Some("send"));
    assert_eq!(pending.resolve("id-2").as_deref(), Some("send"));
    assert_eq!(pending.resolve("id-3").as_deref(), Some("listGroups"));
    assert_eq!(pending.resolve("id-4").as_deref(), Some("listContacts"));
}

#[test]
fn fresh_request_ids_are_registered_and_differ() {
    let mut pending = PendingRequests::new();
    let first = pending.send_message("+10", "+2", "a", false);
    let second = pending.send_message("+10", "+2", "b", false);
    let third = pending.list_groups("+10");
    let fourth = pending.list_contacts("+10");
    assert_eq!(first.id.len(), 36);
    assert_ne!(first.id, second.id);
    assert_eq!(pending.resolve(&first.id).as_deref(), Some("send"));
    assert_eq!(pending.resolve(&second.id).as_deref(), Some("send"));
    assert_eq!(pending.resolve(&third.id).as_deref(), Some("listGroups"));
    assert_eq!(pending.resolve(&fourth.id).as_deref(), Some("listContacts"));
    let sync = send_sync_request("+10");
    assert_eq!(sync.method, "sendSyncRequest");
    assert_eq!(pending.resolve(&sync.id), None);
}
