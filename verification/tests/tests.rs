use dodona_containerfile_evaluator::decode::{decode, decode_all};
use dodona_containerfile_evaluator::protocol::{Command, Message, Status, StatusEnum};
use dodona_containerfile_evaluator::wire::{encode, encode_all};

const EXAMPLE: &str = r#"{"command":"start-judgement"}
{"command":"append-message","message":"will be added to the judgement"}
{"command":"annotate-code","row":3,"column":4,"text":"some info on the fourth line, fifth column of the source"}
{"command":"start-tab","title":"Tab One"}
{"command":"start-context"}
{"command":"start-testcase","description":"case 1"}
{"command":"start-test","expected":"SOMETHING"}
{"command":"append-message","message":"some more info about the test"}
{"command":"close-test","generated":"SOMETHING","status":{"enum":"correct","human":"Correct"}}
{"command":"close-testcase"}
{"command":"close-context"}
{"command":"start-context"}
{"command":"start-testcase","description":"case 2"}
{"command":"start-test","expected":"SOMETHING"}
{"command":"close-test","generated":"ELSE","status":{"enum":"wrong","human":"Wrong"}}
{"command":"close-testcase"}
{"command":"close-context"}
{"command":"close-tab"}
{"command":"close-judgement"}
"#;

fn example() -> Vec<Command> {
    let mut example = Vec::new();
    example.push(Command::StartJudgement);
    example.push(Command::AppendMessage {
        message: Message::String("will be added to the judgement".to_owned()),
    });
    example.push(Command::AnnotateCode {
        row: 3,
        column: Some(4),
        text: "some info on the fourth line, fifth column of the source".to_owned(),
        external_url: None,
        type_: None,
        rows: None,
        columns: None,
    });
    example.push(Command::StartTab {
        title: "Tab One".to_owned(),
        hidden: None,
        permission: None,
    });
    example.push(Command::StartContext { description: None });
    example.push(Command::StartTestcase {
        description: Message::String("case 1".to_owned()),
    });
    example.push(Command::StartTest {
        expected: "SOMETHING".to_owned(),
        format: None,
        description: None,
        channel: None,
    });
    example.push(Command::AppendMessage {
        message: Message::String("some more info about the test".to_owned()),
    });
    example.push(Command::CloseTest {
        generated: "SOMETHING".to_owned(),
        accepted: None,
        status: Status {
            enum_: StatusEnum::Correct,
            human: "Correct".to_owned(),
        },
    });
    example.push(Command::CloseTestcase { accepted: None });
    example.push(Command::CloseContext { accepted: None });
    example.push(Command::StartContext { description: None });
    example.push(Command::StartTestcase {
        description: Message::String("case 2".to_owned()),
    });
    example.push(Command::StartTest {
        expected: "SOMETHING".to_owned(),
        format: None,
        description: None,
        channel: None,
    });
    example.push(Command::CloseTest {
        generated: "ELSE".to_owned(),
        accepted: None,
        status: Status {
            enum_: StatusEnum::Wrong,
            human: "Wrong".to_owned(),
        },
    });
    example.push(Command::CloseTestcase { accepted: None });
    example.push(Command::CloseContext { accepted: None });
    example.push(Command::CloseTab { badge_count: None });
    example.push(Command::CloseJudgement {
        accepted: None,
        status: None,
    });
    example
}

#[test]
fn deserialize_example() {
    let result: Vec<Command> = decode_all(EXAMPLE).unwrap();
    assert_eq!(result, example());
}

#[test]
fn roundtrip_example() {
    let example = example();
    let result: Vec<Command> = decode_all(&encode_all(&example)).unwrap();
    assert_eq!(result, example);
}

#[test]
fn serialize_example() {
    assert_eq!(encode_all(&example()), EXAMPLE);
}

#[test]
fn roundtrip_each_event() {
    for command in example() {
        assert_eq!(decode(&encode(&command)), Some(command));
    }
}
