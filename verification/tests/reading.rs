use dodona_containerfile_evaluator::config::{Config, From, Port};
use dodona_containerfile_evaluator::grammar::{comments_of, parse_expose_argument};
use dodona_containerfile_evaluator::manifest::{
    Directive, ExposeInstruction, ExposedPort, Fragment, FromInstruction, MiscInstruction, Stage,
};
use dodona_containerfile_evaluator::nesting::is_well_nested;
use dodona_containerfile_evaluator::protocol::{Command, StatusEnum};
use dodona_containerfile_evaluator::reader::{analyze, classify, read_manifest};

const SOURCE: &str = "# syntax check\nFROM alpine:3.19 AS build\nRUN echo hi\n\nFROM ubuntu:22.04\n  # runtime user\nUSER alice\nuser bob\nWORKDIR   /app  \nEXPOSE 8080 53/udp\nexpose 9090/tcp\n";

fn port(port: u16, protocol: Option<&str>) -> ExposedPort {
    ExposedPort { port, protocol: protocol.map(|p| p.to_owned()) }
}

#[test]
fn expose_argument_words() {
    assert_eq!(
        parse_expose_argument(" 8080 53/udp\t9090/tcp  "),
        vec![port(8080, None), port(53, Some("udp")), port(9090, Some("tcp"))]
    );
}

#[test]
fn expose_argument_skips_what_is_no_port() {
    assert_eq!(
        parse_expose_argument("65535 65536 80/ /tcp 8000-8010 $PORT 0 007/x/y 99999999999999999999"),
        vec![port(65535, None), port(0, None), port(7, Some("x/y"))]
    );
    assert_eq!(parse_expose_argument(""), vec![]);
    assert_eq!(parse_expose_argument("   "), vec![]);
}

#[test]
fn comment_lines() {
    assert_eq!(
        comments_of("# first\nFROM a # not a comment\n \t# second\r\n#\n\nRUN x \\\n  # inner\n  y"),
        vec!["# first".to_owned(), "# second".to_owned(), "#".to_owned(), "# inner".to_owned()]
    );
    assert_eq!(comments_of(""), Vec::<String>::new());
    assert_eq!(comments_of("#"), vec!["#".to_owned()]);
}

#[test]
fn classify_expose_and_other() {
    let expose = MiscInstruction {
        name: "Expose".to_owned(),
        arguments: vec![
            Fragment::Text(" 80".to_owned()),
            Fragment::Comment("# 81".to_owned()),
            Fragment::Text("80/udp".to_owned()),
        ],
    };
    assert_eq!(
        classify(expose),
        Directive::Expose(ExposeInstruction { ports: vec![port(8080, Some("udp"))] })
    );
    let user = MiscInstruction {
        name: "USER".to_owned(),
        arguments: vec![Fragment::Text(" alice".to_owned())],
    };
    assert_eq!(classify(user.clone()), Directive::Misc(user));
}

#[test]
fn manifest_of_source() {
    let manifest = read_manifest(SOURCE).unwrap();
    assert_eq!(manifest.comments, vec!["# syntax check".to_owned(), "# runtime user".to_owned()]);
    assert_eq!(manifest.stages.len(), 2);
    assert_eq!(
        manifest.stages[0],
        Stage {
            instructions: vec![Directive::From(FromInstruction {
                image: "alpine".to_owned(),
                tag: Some("3.19".to_owned()),
                digest: None,
            })],
        }
    );
    assert_eq!(
        manifest.stages[1],
        Stage {
            instructions: vec![
                Directive::From(FromInstruction {
                    image: "ubuntu".to_owned(),
                    tag: Some("22.04".to_owned()),
                    digest: None,
                }),
                Directive::Misc(MiscInstruction {
                    name: "USER".to_owned(),
                    arguments: vec![Fragment::Text(" alice".to_owned())],
                }),
                Directive::Misc(MiscInstruction {
                    name: "user".to_owned(),
                    arguments: vec![Fragment::Text(" bob".to_owned())],
                }),
                Directive::Misc(MiscInstruction {
                    name: "WORKDIR".to_owned(),
                    arguments: vec![Fragment::Text("   /app  ".to_owned())],
                }),
                Directive::Expose(ExposeInstruction {
                    ports: vec![port(8080, None), port(53, Some("udp"))],
                }),
                Directive::Expose(ExposeInstruction { ports: vec![port(9090, Some("tcp"))] }),
            ],
        }
    );
}

#[test]
fn manifest_without_from_has_no_stage() {
    let manifest = read_manifest("USER alice\n").unwrap();
    assert!(manifest.stages.is_empty());
}

#[test]
fn unparsable_text_is_an_error() {
    let error = read_manifest("FROM\n").unwrap_err();
    assert!(error.message.contains("Dockerfile"), "{}", error.message);
    let config = Config { from: None, user: None, workdir: None, expose: None, comments: None };
    assert!(analyze("FROM\n", &config).is_err());
}

#[test]
fn analyze_source() {
    let config = Config {
        from: Some(From { image: "ubuntu".to_owned(), tag: Some("22.04".to_owned()), digest: None }),
        user: Some("bob".to_owned()),
        workdir: Some("/app".to_owned()),
        expose: Some(vec![
            Port { number: 8080, protocol: None },
            Port { number: 53, protocol: None },
            Port { number: 9090, protocol: Some("tcp".to_owned()) },
            Port { number: 1, protocol: None },
        ]),
        comments: Some(vec!["runtime".to_owned()]),
    };
    let trace = analyze(SOURCE, &config).unwrap();
    assert!(is_well_nested(&trace));
    let verdicts: Vec<StatusEnum> = trace
        .iter()
        .filter_map(|c| match c {
            Command::CloseTest { status, .. } => Some(status.enum_),
            _ => None,
        })
        .collect();
    assert_eq!(
        verdicts,
        vec![
            StatusEnum::Correct,
            StatusEnum::Correct,
            StatusEnum::Correct,
            StatusEnum::Correct,
            StatusEnum::Correct,
            StatusEnum::Correct,
            StatusEnum::Correct,
            StatusEnum::Correct,
            StatusEnum::Wrong,
            StatusEnum::Correct,
            StatusEnum::Correct,
            StatusEnum::Wrong,
        ]
    );
}
