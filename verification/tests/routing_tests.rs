use relay_core::router::{
    classify_app_message, classify_comm_message, collaborator_outcome, route_fields, route_text,
    InboundAction,
};
use relay_core::types::{parse_comm_sender, parse_version, version_to_tag, CommSender, Version};

#[test]
fn route_join_contest() {
    let text = String::from(r#"{"type":"joinContest","data":{"contest_id":"c1"}}"#);
    let a = route_text(&text);
    assert!(matches!(a, InboundAction::JoinRoom { room } if room == "c1"));
}

#[test]
fn route_add_question() {
    let text =
        String::from(r#"{"type":"addQuestion","data":{"contest_id":"c1","q":{"id":"q1"}}}"#);
    let a = route_text(&text);
    match a {
        InboundAction::AskCollaborator { contest_id, question_id, question_json } => {
            assert_eq!(contest_id, "c1");
            assert_eq!(question_id, "q1");
            assert_eq!(question_json, r#"{"id":"q1"}"#);
        }
        other => panic!("expected a collaborator call, got {:?}", other),
    }
}

#[test]
fn route_unknown_type_is_ignored() {
    let a = route_text(&String::from(r#"{"type":"shoutAtEveryone","data":{}}"#));
    assert!(matches!(a, InboundAction::Ignore));
}

#[test]
fn route_malformed_json_is_ignored() {
    let a = route_text(&String::from("{not json"));
    assert!(matches!(a, InboundAction::Ignore));
}

#[test]
fn route_join_contest_without_id_is_ignored() {
    let a = route_text(&String::from(r#"{"type":"joinContest","data":{}}"#));
    assert!(matches!(a, InboundAction::Ignore));
}

#[test]
fn route_new_chat_room_joins_email_room() {
    let text =
        String::from(r#"{"version":"new_chat_room","sender":"user","user_email":"a@b.example"}"#);
    let a = route_text(&text);
    assert!(matches!(a, InboundAction::JoinRoom { room } if room == "a@b.example"));
}

#[test]
fn route_chat_message_variant_is_acknowledged_not_acted_on() {
    let a = route_text(&String::from(r#"{"version":"message","sender":"user"}"#));
    assert!(matches!(a, InboundAction::Ignore));
}

#[test]
fn route_unknown_version_is_not_this_family() {
    let a = route_text(&String::from(r#"{"version":"carrier_pigeon","sender":"user"}"#));
    assert!(matches!(a, InboundAction::Ignore));
}

#[test]
fn route_empty_email_is_ignored() {
    let a = route_text(&String::from(
        r#"{"version":"new_chat_room","sender":"user","user_email":""}"#,
    ));
    assert!(matches!(a, InboundAction::Ignore));
}

#[test]
fn classify_app_dispatch_table() {
    let a = classify_app_message(&String::from("joinContest"), Some(String::from("c9")), None, None);
    assert!(matches!(a, InboundAction::JoinRoom { room } if room == "c9"));
    let b = classify_app_message(
        &String::from("addQuestion"),
        Some(String::from("c1")),
        None,
        Some(String::from("{}")),
    );
    assert!(matches!(b, InboundAction::Ignore));
}

#[test]
fn classify_comm_dispatch_table() {
    let a = classify_comm_message(Version::NewChatRoom, Some(String::from("who@where")));
    assert!(matches!(a, InboundAction::JoinRoom { room } if room == "who@where"));
    let b = classify_comm_message(Version::SystemPing, Some(String::from("who@where")));
    assert!(matches!(b, InboundAction::Ignore));
    let c = classify_comm_message(Version::NewChatRoom, None);
    assert!(matches!(c, InboundAction::Ignore));
}

#[test]
fn route_fields_requires_valid_sender() {
    let a = route_fields(
        None,
        None,
        None,
        None,
        Some(String::from("new_chat_room")),
        Some(String::from("nobody")),
        Some(String::from("a@b")),
    );
    assert!(matches!(a, InboundAction::Ignore));
}

#[test]
fn version_tags_round_trip() {
    for v in [
        Version::NewChatRoom,
        Version::Message,
        Version::ConfigUpdate,
        Version::SystemPing,
        Version::ContestUpdate,
        Version::AiReply,
        Version::ResponseFromMcp,
        Version::GetUserDetails,
        Version::GetNextQuestion,
    ] {
        let tag = version_to_tag(v);
        assert_eq!(parse_version(&tag), Some(v));
    }
    assert_eq!(parse_version(&String::from("new chat room")), None);
}

#[test]
fn sender_tags() {
    assert_eq!(parse_comm_sender(&String::from("system")), Some(CommSender::System));
    assert_eq!(parse_comm_sender(&String::from("user")), Some(CommSender::User));
    assert_eq!(parse_comm_sender(&String::from("ai")), None);
}

#[test]
fn collaborator_success_builds_envelope() {
    let r = collaborator_outcome(
        &String::from("c1"),
        true,
        Some(String::from(r#"{"questions":[{"id":"q1"}]}"#)),
    );
    let m = r.expect("success with a body must broadcast");
    assert_eq!(m.room_id, "c1");
    assert_eq!(
        m.content,
        r#"{"version":"contest_update","questions":{"questions":[{"id":"q1"}]}}"#
    );
}

#[test]
fn collaborator_failure_broadcasts_nothing() {
    assert!(collaborator_outcome(&String::from("c1"), false, Some(String::from("{}"))).is_none());
    assert!(collaborator_outcome(&String::from("c1"), true, None).is_none());
}
