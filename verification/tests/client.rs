use signal_tui::signal::client::{parse_rpc_result, parse_signal_event};
use signal_tui::signal::json::Json;
use signal_tui::signal::types::{JsonRpcResponse, SignalEvent};

fn text(s: &str) -> Json {
    Json::Text(s.to_string())
}

fn object(members: Vec<(&str, Json)>) -> Json {
    Json::Object(members.into_iter().map(|(k, v)| (k.to_string(), v)).collect())
}

#[test]
fn parse_list_contacts_basic() {
    let result = Json::Array(vec![
        object(vec![("number", text("+15551234567")), ("profileName", text("Alice"))]),
        object(vec![("number", text("+15559876543")), ("contactName", text("Bob"))]),
    ]);
    let event = parse_rpc_result("listContacts", &result, None).unwrap();
    match event {
        SignalEvent::ContactList(contacts) => {
            assert_eq!(contacts.len(), 2);
            assert_eq!(contacts[0].number, "+15551234567");
            assert_eq!(contacts[0].name.as_deref(), Some("Alice"));
            assert_eq!(contacts[1].number, "+15559876543");
            assert_eq!(contacts[1].name.as_deref(), Some("Bob"));
        }
        _ => panic!("Expected ContactList"),
    }
}

#[test]
fn parse_list_contacts_name_priority() {
    let result = Json::Array(vec![
        object(vec![
            ("number", text("+1")),
            ("profileName", text("Profile")),
            ("contactName", text("Contact")),
            ("name", text("Name")),
        ]),
        object(vec![("number", text("+2")), ("contactName", text("Contact")), ("name", text("Name"))]),
        object(vec![("number", text("+3")), ("name", text("Name"))]),
        object(vec![("number", text("+4"))]),
    ]);
    let event = parse_rpc_result("listContacts", &result, None).unwrap();
    match event {
        SignalEvent::ContactList(contacts) => {
            assert_eq!(contacts.len(), 4);
            assert_eq!(contacts[0].name.as_deref(), Some("Profile"));
            assert_eq!(contacts[1].name.as_deref(), Some("Contact"));
            assert_eq!(contacts[2].name.as_deref(), Some("Name"));
            assert_eq!(contacts[3].name, None);
        }
        _ => panic!("Expected ContactList"),
    }
}

#[test]
fn parse_list_contacts_skips_no_number() {
    let result = Json::Array(vec![
        object(vec![("profileName", text("Ghost"))]),
        object(vec![("number", text("+1")), ("profileName", text("Valid"))]),
    ]);
    let event = parse_rpc_result("listContacts", &result, None).unwrap();
    match event {
        SignalEvent::ContactList(contacts) => {
            assert_eq!(contacts.len(), 1);
            assert_eq!(contacts[0].number, "+1");
        }
        _ => panic!("Expected ContactList"),
    }
}

#[test]
fn parse_list_contacts_empty_name_becomes_none() {
    let result = Json::Array(vec![object(vec![("number", text("+1")), ("profileName", text(""))])]);
    let event = parse_rpc_result("listContacts", &result, None).unwrap();
    match event {
        SignalEvent::ContactList(contacts) => {
            assert_eq!(contacts[0].name, None);
        }
        _ => panic!("Expected ContactList"),
    }
}

#[test]
fn parse_list_groups_basic() {
    let result = Json::Array(vec![
        object(vec![
            ("id", text("group1")),
            ("name", text("Family")),
            ("members", Json::Array(vec![text("+1"), text("+2")])),
        ]),
        object(vec![("id", text("group2")), ("name", text("Work"))]),
    ]);
    let event = parse_rpc_result("listGroups", &result, None).unwrap();
    match event {
        SignalEvent::GroupList(groups) => {
            assert_eq!(groups.len(), 2);
            assert_eq!(groups[0].id, "group1");
            assert_eq!(groups[0].name, "Family");
            assert_eq!(groups[0].members, vec!["+1", "+2"]);
            assert_eq!(groups[1].id, "group2");
            assert_eq!(groups[1].name, "Work");
            assert!(groups[1].members.is_empty());
        }
        _ => panic!("Expected GroupList"),
    }
}

#[test]
fn parse_list_groups_skips_no_id() {
    let result = Json::Array(vec![
        object(vec![("name", text("No ID group"))]),
        object(vec![("id", text("valid")), ("name", text("Has ID"))]),
    ]);
    let event = parse_rpc_result("listGroups", &result, None).unwrap();
    match event {
        SignalEvent::GroupList(groups) => {
            assert_eq!(groups.len(), 1);
            assert_eq!(groups[0].id, "valid");
        }
        _ => panic!("Expected GroupList"),
    }
}

#[test]
fn parse_rpc_result_unknown_method_returns_none() {
    let result = Json::Array(vec![]);
    assert!(parse_rpc_result("unknownMethod", &result, None).is_none());
}

#[test]
fn parse_rpc_result_non_array_returns_none() {
    let result = object(vec![("not", text("an array"))]);
    assert!(parse_rpc_result("listContacts", &result, None).is_none());
    assert!(parse_rpc_result("listGroups", &result, None).is_none());
}

#[test]
fn parse_list_contacts_empty_array() {
    let result = Json::Array(vec![]);
    let event = parse_rpc_result("listContacts", &result, None).unwrap();
    match event {
        SignalEvent::ContactList(contacts) => assert!(contacts.is_empty()),
        _ => panic!("Expected ContactList"),
    }
}

#[test]
fn parse_list_groups_empty_array() {
    let result = Json::Array(vec![]);
    let event = parse_rpc_result("listGroups", &result, None).unwrap();
    match event {
        SignalEvent::GroupList(groups) => assert!(groups.is_empty()),
        _ => panic!("Expected GroupList"),
    }
}

#[test]
fn parse_send_result_extracts_timestamp() {
    let result = object(vec![("timestamp", Json::Int(1700000000123_i64))]);
    let event = parse_rpc_result("send", &result, Some("rpc-42")).unwrap();
    match event {
        SignalEvent::SendTimestamp { rpc_id, server_ts } => {
            assert_eq!(rpc_id, "rpc-42");
            assert_eq!(server_ts, 1700000000123);
        }
        _ => panic!("Expected SendTimestamp"),
    }
}

#[test]
fn parse_send_result_without_id_returns_none() {
    let result = object(vec![("timestamp", Json::Int(1700000000123_i64))]);
    assert!(parse_rpc_result("send", &result, None).is_none());
}

#[test]
fn parse_receipt_event_extracts_type_and_timestamps() {
    let resp = JsonRpcResponse {
        jsonrpc: "2.0".to_string(),
        id: None,
        result: None,
        error: None,
        method: Some("receive".to_string()),
        params: Some(object(vec![(
            "envelope",
            object(vec![
                ("sourceNumber", text("+15551234567")),
                ("timestamp", Json::Int(1700000000000_i64)),
                (
                    "receiptMessage",
                    object(vec![
                        ("type", text("DELIVERY")),
                        (
                            "timestamps",
                            Json::Array(vec![
                                Json::Int(1700000000001_i64),
                                Json::Int(1700000000002_i64),
                            ]),
                        ),
                    ]),
                ),
            ]),
        )])),
    };
    let event = parse_signal_event(&resp).unwrap();
    match event {
        SignalEvent::ReceiptReceived { sender, receipt_type, timestamps } => {
            assert_eq!(sender, "+15551234567");
            assert_eq!(receipt_type, "DELIVERY");
            assert_eq!(timestamps, vec![1700000000001, 1700000000002]);
        }
        _ => panic!("Expected ReceiptReceived, got {:?}", event),
    }
}
