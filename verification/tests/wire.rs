use dodona_containerfile_evaluator::protocol::{
    Command, Message, Permission, Severity, Status, StatusEnum, TestFormat,
};
use dodona_containerfile_evaluator::decode::{decode, decode_all};
use dodona_containerfile_evaluator::wire::{encode, encode_all};

fn text(s: &str) -> Message {
    Message::String(s.to_owned())
}

#[test]
fn unit_event() {
    assert_eq!(encode(&Command::StartJudgement), r#"{"command":"start-judgement"}"#);
}

#[test]
fn absent_fields_are_left_out() {
    assert_eq!(
        encode(&Command::StartContext { description: None }),
        r#"{"command":"start-context"}"#
    );
    assert_eq!(
        encode(&Command::CloseContext { accepted: None }),
        r#"{"command":"close-context"}"#
    );
    assert_eq!(
        encode(&Command::CloseContext { accepted: Some(false) }),
        r#"{"command":"close-context","accepted":false}"#
    );
    assert_eq!(
        encode(&Command::StartTest {
            expected: "bob".to_owned(),
            format: None,
            description: None,
            channel: None,
        }),
        r#"{"command":"start-test","expected":"bob"}"#
    );
    assert_eq!(
        encode(&Command::CloseJudgement { accepted: None, status: None }),
        r#"{"command":"close-judgement"}"#
    );
}

#[test]
fn present_fields_in_order() {
    assert_eq!(
        encode(&Command::StartTab {
            title: "Tab One".to_owned(),
            hidden: Some(true),
            permission: Some(Permission::Staff),
        }),
        r#"{"command":"start-tab","title":"Tab One","hidden":true,"permission":"staff"}"#
    );
    assert_eq!(
        encode(&Command::StartTest {
            expected: "x".to_owned(),
            format: Some(TestFormat::Text),
            description: Some(Message::Object {
                format: "html".to_owned(),
                description: "<b>x</b>".to_owned(),
                permission: Permission::Zeus,
            }),
            channel: Some("stdout".to_owned()),
        }),
        r#"{"command":"start-test","expected":"x","format":"text","description":{"format":"html","description":"<b>x</b>","permission":"zeus"},"channel":"stdout"}"#
    );
    assert_eq!(
        encode(&Command::AnnotateCode {
            row: 3,
            column: Some(4),
            text: "some info".to_owned(),
            external_url: Some("https://example.org".to_owned()),
            type_: Some(Severity::Warning),
            rows: Some(1),
            columns: Some(65535),
        }),
        r#"{"command":"annotate-code","row":3,"column":4,"text":"some info","externalUrl":"https://example.org","type":"warning","rows":1,"columns":65535}"#
    );
    assert_eq!(
        encode(&Command::CloseTest {
            generated: "ELSE".to_owned(),
            accepted: Some(false),
            status: Status { enum_: StatusEnum::Wrong, human: "Wrong".to_owned() },
        }),
        r#"{"command":"close-test","generated":"ELSE","accepted":false,"status":{"enum":"wrong","human":"Wrong"}}"#
    );
    assert_eq!(
        encode(&Command::CloseTab { badge_count: Some(0) }),
        r#"{"command":"close-tab","badgeCount":0}"#
    );
    assert_eq!(
        encode(&Command::CloseJudgement {
            accepted: Some(true),
            status: Some(Status {
                enum_: StatusEnum::TimeLimitExceeded,
                human: "slow".to_owned(),
            }),
        }),
        r#"{"command":"close-judgement","accepted":true,"status":{"enum":"time-limit-exceeded","human":"slow"}}"#
    );
    assert_eq!(
        encode(&Command::EscalateStatus {
            status: Status { enum_: StatusEnum::MemoryLimitExceeded, human: String::new() },
        }),
        r#"{"command":"escalate-status","status":{"enum":"memory-limit-exceeded","human":""}}"#
    );
    assert_eq!(
        encode(&Command::AppendMessage { message: text("hi") }),
        r#"{"command":"append-message","message":"hi"}"#
    );
    assert_eq!(
        encode(&Command::StartTestcase { description: text("case 1") }),
        r#"{"command":"start-testcase","description":"case 1"}"#
    );
}

#[test]
fn strings_are_escaped() {
    assert_eq!(
        encode(&Command::AppendMessage {
            message: text("a\"b\\c\u{8}\t\n\u{c}\r\u{0}\u{1f}\u{7f}/é\u{2028}"),
        }),
        "{\"command\":\"append-message\",\"message\":\"a\\\"b\\\\c\\b\\t\\n\\f\\r\\u0000\\u001f\u{7f}/é\u{2028}\"}"
    );
}

#[test]
fn trace_is_one_event_per_line() {
    let trace = vec![
        Command::StartContext { description: None },
        Command::CloseContext { accepted: Some(false) },
    ];
    assert_eq!(
        encode_all(&trace),
        "{\"command\":\"start-context\"}\n{\"command\":\"close-context\",\"accepted\":false}\n"
    );
    assert_eq!(encode_all(&Vec::new()), "");
}

fn full() -> Vec<Command> {
    vec![
        Command::StartJudgement,
        Command::StartTab {
            title: "T\"a\\b\n".to_owned(),
            hidden: Some(false),
            permission: Some(Permission::Student),
        },
        Command::StartTab { title: String::new(), hidden: None, permission: Some(Permission::Zeus) },
        Command::StartContext {
            description: Some(Message::Object {
                format: "markdown".to_owned(),
                description: "# \u{1}\u{1f} title".to_owned(),
                permission: Permission::Staff,
            }),
        },
        Command::StartTestcase { description: text("{\"command\":\"x\"}") },
        Command::StartTest {
            expected: "a,b".to_owned(),
            format: Some(TestFormat::CSV),
            description: Some(text("d")),
            channel: Some("stderr".to_owned()),
        },
        Command::StartTest {
            expected: "a".to_owned(),
            format: None,
            description: None,
            channel: Some(",\"format\":\"text\"".to_owned()),
        },
        Command::AppendMessage { message: text("é \u{2028} \u{10ffff}") },
        Command::AnnotateCode {
            row: 0,
            column: None,
            text: String::new(),
            external_url: None,
            type_: Some(Severity::Info),
            rows: None,
            columns: Some(10),
        },
        Command::AnnotateCode {
            row: 65535,
            column: Some(100),
            text: "t".to_owned(),
            external_url: Some("u".to_owned()),
            type_: Some(Severity::Error),
            rows: Some(7),
            columns: None,
        },
        Command::EscalateStatus {
            status: Status { enum_: StatusEnum::CompilationError, human: "no".to_owned() },
        },
        Command::CloseTest {
            generated: "g".to_owned(),
            accepted: Some(true),
            status: Status { enum_: StatusEnum::OutputLimitExceeded, human: "much".to_owned() },
        },
        Command::CloseTestcase { accepted: Some(true) },
        Command::CloseContext { accepted: Some(false) },
        Command::CloseTab { badge_count: Some(12345) },
        Command::CloseJudgement {
            accepted: None,
            status: Some(Status { enum_: StatusEnum::RuntimeError, human: "x".to_owned() }),
        },
        Command::CloseJudgement { accepted: Some(false), status: None },
        Command::EscalateStatus {
            status: Status { enum_: StatusEnum::InternalError, human: "\t".to_owned() },
        },
    ]
}

#[test]
fn every_event_round_trips() {
    for command in full() {
        let line = encode(&command);
        assert_eq!(decode(&line), Some(command), "{}", line);
    }
    let trace = full();
    assert_eq!(decode_all(&encode_all(&trace)), Some(trace));
}

#[test]
fn encoding_agrees_with_a_json_parser() {
    for command in full() {
        let line = encode(&command);
        let value: serde_json::Value = serde_json::from_str(&line).unwrap();
        assert!(value.is_object(), "{}", line);
        assert!(value["command"].is_string(), "{}", line);
        if let Command::StartTab { title, .. } = &command {
            assert_eq!(value["title"].as_str(), Some(title.as_str()));
        }
        if let Command::AnnotateCode { row, .. } = &command {
            assert_eq!(value["row"].as_u64(), Some(u64::from(*row)));
        }
    }
}

#[test]
fn what_is_no_event_is_refused() {
    for line in [
        "",
        "{}",
        "{\"command\":\"start-judgement\"",
        "{\"command\":\"start-judgement\"} ",
        " {\"command\":\"start-judgement\"}",
        "{\"command\":\"start-judgment\"}",
        "{\"command\":\"start-tab\"}",
        "{\"command\":\"start-tab\",\"hidden\":true,\"title\":\"t\"}",
        "{\"command\":\"close-tab\",\"badgeCount\":65536}",
        "{\"command\":\"close-tab\",\"badgeCount\":-1}",
        "{\"command\":\"close-tab\",\"badgeCount\":}",
        "{\"command\":\"close-context\",\"accepted\":maybe}",
        "{\"command\":\"close-context\",\"accepted\":true,\"extra\":1}",
        "{\"command\":\"append-message\",\"message\":\"a\nb\"}",
        "{\"command\":\"append-message\",\"message\":\"\\x\"}",
        "{\"command\":\"append-message\",\"message\":\"\\u0041\"}",
        "{\"command\":\"append-message\",\"message\":\"open",
        "{\"command\":\"escalate-status\",\"status\":{\"enum\":\"fine\",\"human\":\"\"}}",
    ] {
        assert_eq!(decode(line), None, "{}", line);
    }
    assert_eq!(decode_all("{\"command\":\"start-judgement\"}"), None);
    assert_eq!(decode_all("\n"), None);
    assert_eq!(decode_all(""), Some(Vec::new()));
}

#[test]
fn verdict_aliases_are_read() {
    assert_eq!(
        decode("{\"command\":\"escalate-status\",\"status\":{\"enum\":\"wrong answer\",\"human\":\"h\"}}"),
        Some(Command::EscalateStatus {
            status: Status { enum_: StatusEnum::Wrong, human: "h".to_owned() },
        })
    );
    assert_eq!(
        decode("{\"command\":\"escalate-status\",\"status\":{\"enum\":\"correct answer\",\"human\":\"h\"}}"),
        Some(Command::EscalateStatus {
            status: Status { enum_: StatusEnum::Correct, human: "h".to_owned() },
        })
    );
}
