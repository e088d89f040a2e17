use dodona_containerfile_evaluator::config::{Config, From, Port};
use dodona_containerfile_evaluator::evaluator::{
    any_comment_contains, cmp_test, collect_declared_ports, evaluate, find_declared_port,
    find_last_from, get_content_from_misc_instruction, test_comments, test_expose_instruction,
    test_from_instruction, test_misc_instruction,
};
use dodona_containerfile_evaluator::manifest::{
    join_literal_text, Directive, ExposeInstruction, ExposedPort, Fragment, FromInstruction,
    Manifest, MiscInstruction, Stage,
};
use dodona_containerfile_evaluator::nesting::is_well_nested;
use dodona_containerfile_evaluator::protocol::{Command, Message, Status, StatusEnum};
use dodona_containerfile_evaluator::text::decimal_text;
use dodona_containerfile_evaluator::wire::encode_all;

fn misc(name: &str, argument: &str) -> Directive {
    Directive::Misc(MiscInstruction {
        name: name.to_owned(),
        arguments: vec![Fragment::Text(argument.to_owned())],
    })
}

fn from(image: &str, tag: Option<&str>, digest: Option<&str>) -> Directive {
    Directive::From(FromInstruction {
        image: image.to_owned(),
        tag: tag.map(|t| t.to_owned()),
        digest: digest.map(|d| d.to_owned()),
    })
}

fn expose(ports: &[(u16, Option<&str>)]) -> Directive {
    Directive::Expose(ExposeInstruction {
        ports: ports
            .iter()
            .map(|(port, protocol)| ExposedPort {
                port: *port,
                protocol: protocol.map(|p| p.to_owned()),
            })
            .collect(),
    })
}

fn stage(instructions: Vec<Directive>) -> Stage {
    Stage { instructions }
}

fn two_users() -> Stage {
    stage(vec![from("alpine", Some("3.19"), None), misc("USER", " alice"), misc("USER", " bob")])
}

fn start_context(description: Option<&str>) -> Command {
    Command::StartContext { description: description.map(|d| Message::String(d.to_owned())) }
}

fn close_context(accepted: Option<bool>) -> Command {
    Command::CloseContext { accepted }
}

fn start_testcase(description: &str) -> Command {
    Command::StartTestcase { description: Message::String(description.to_owned()) }
}

fn close_testcase() -> Command {
    Command::CloseTestcase { accepted: None }
}

fn start_test(expected: &str) -> Command {
    Command::StartTest {
        expected: expected.to_owned(),
        format: None,
        description: None,
        channel: None,
    }
}

fn correct(generated: &str) -> Command {
    Command::CloseTest {
        generated: generated.to_owned(),
        accepted: None,
        status: Status { enum_: StatusEnum::Correct, human: "Correct".to_owned() },
    }
}

fn wrong(generated: &str, human: &str) -> Command {
    Command::CloseTest {
        generated: generated.to_owned(),
        accepted: None,
        status: Status { enum_: StatusEnum::Wrong, human: human.to_owned() },
    }
}

fn verdict(trace: &[Command]) -> Vec<StatusEnum> {
    trace
        .iter()
        .filter_map(|c| match c {
            Command::CloseTest { status, .. } => Some(status.enum_),
            _ => None,
        })
        .collect()
}

fn nothing_expected() -> Config {
    Config { from: None, user: None, workdir: None, expose: None, comments: None }
}

#[test]
fn comparison_of_equal_values() {
    let mut out = Vec::new();
    cmp_test("bob", Some("bob"), "USER", &mut out);
    assert_eq!(out, vec![start_test("bob"), correct("bob")]);
}

#[test]
fn comparison_of_different_values() {
    let mut out = Vec::new();
    cmp_test("bob", Some("Bob"), "USER", &mut out);
    assert_eq!(
        out,
        vec![start_test("bob"), wrong("Bob", "USER doesn't match requested \"bob\"")]
    );
}

#[test]
fn comparison_with_nothing_found() {
    let mut out = Vec::new();
    cmp_test("bob", None, "USER", &mut out);
    assert_eq!(out, vec![start_test("bob"), wrong("", "USER instruction not found")]);
}

#[test]
fn comparison_with_an_empty_value_found() {
    let mut out = Vec::new();
    cmp_test("bob", Some(""), "USER", &mut out);
    assert_eq!(out, vec![start_test("bob"), wrong("", "USER doesn't match requested \"bob\"")]);
    let mut out = Vec::new();
    cmp_test("", Some(""), "USER", &mut out);
    assert_eq!(out, vec![start_test(""), correct("")]);
}

#[test]
fn comparison_appends_to_the_trace() {
    let mut out = vec![Command::StartJudgement];
    cmp_test("a", Some("a"), "x", &mut out);
    assert_eq!(out, vec![Command::StartJudgement, start_test("a"), correct("a")]);
}

#[test]
fn last_user_wins() {
    let mut out = Vec::new();
    test_misc_instruction(&two_users(), "USER", "bob", &mut out);
    assert_eq!(verdict(&out), vec![StatusEnum::Correct]);
    assert_eq!(
        out,
        vec![
            start_context(None),
            start_testcase("USER instruction"),
            start_test("bob"),
            correct("bob"),
            close_testcase(),
            close_context(None),
        ]
    );
}

#[test]
fn earlier_user_is_overridden() {
    let mut out = Vec::new();
    test_misc_instruction(&two_users(), "USER", "alice", &mut out);
    assert_eq!(verdict(&out), vec![StatusEnum::Wrong]);
    assert_eq!(out[3], wrong("bob", "USER doesn't match requested \"alice\""));
}

#[test]
fn workdir_is_compared_without_the_white_space_around_it() {
    let stage = stage(vec![misc("WORKDIR", "  /app  ")]);
    let mut out = Vec::new();
    test_misc_instruction(&stage, "WORKDIR", "/app", &mut out);
    assert_eq!(
        out,
        vec![
            start_context(None),
            start_testcase("WORKDIR instruction"),
            start_test("/app"),
            correct("/app"),
            close_testcase(),
            close_context(None),
        ]
    );
}

#[test]
fn white_space_inside_the_value_counts() {
    let stage = stage(vec![misc("WORKDIR", "\t/my app\u{a0}\u{2003}\n")]);
    let mut out = Vec::new();
    test_misc_instruction(&stage, "WORKDIR", "/my app", &mut out);
    assert_eq!(verdict(&out), vec![StatusEnum::Correct]);
    let mut out = Vec::new();
    test_misc_instruction(&stage, "WORKDIR", "/myapp", &mut out);
    assert_eq!(out[3], wrong("/my app", "WORKDIR doesn't match requested \"/myapp\""));
    let mut out = Vec::new();
    test_misc_instruction(&stage, "WORKDIR", " /my app", &mut out);
    assert_eq!(verdict(&out), vec![StatusEnum::Wrong]);
}

#[test]
fn missing_instruction_is_not_an_empty_value() {
    let mut out = Vec::new();
    test_misc_instruction(&stage(vec![]), "USER", "", &mut out);
    assert_eq!(out[3], wrong("", "USER instruction not found"));
    let mut out = Vec::new();
    test_misc_instruction(&stage(vec![misc("USER", "  ")]), "USER", "", &mut out);
    assert_eq!(out[3], correct(""));
}

#[test]
fn instruction_names_match_without_regard_to_ascii_case() {
    let list = vec![misc("user", " a"), misc("UsEr", " b"), misc("USERS", " c"), misc("ÜSER", "d")];
    assert_eq!(get_content_from_misc_instruction(&list, "USER"), Some(" b".to_owned()));
    assert_eq!(get_content_from_misc_instruction(&list, "users"), Some(" c".to_owned()));
    assert_eq!(get_content_from_misc_instruction(&list, "üSER"), None);
    assert_eq!(get_content_from_misc_instruction(&list, "WORKDIR"), None);
    assert_eq!(get_content_from_misc_instruction(&Vec::new(), "USER"), None);
}

#[test]
fn comments_inside_an_argument_are_left_out() {
    let arguments = vec![
        Fragment::Text(" a ".to_owned()),
        Fragment::Comment("# not this".to_owned()),
        Fragment::Text("b".to_owned()),
    ];
    assert_eq!(join_literal_text(&arguments), " a b");
    assert_eq!(join_literal_text(&Vec::new()), "");
    let list = vec![Directive::Misc(MiscInstruction { name: "USER".to_owned(), arguments })];
    assert_eq!(get_content_from_misc_instruction(&list, "user"), Some(" a b".to_owned()));
}

#[test]
fn last_from_wins() {
    let list = vec![
        from("a", None, None),
        misc("USER", "x"),
        from("b", Some("1"), None),
        Directive::Comment("# c".to_owned()),
    ];
    assert_eq!(
        find_last_from(&list),
        Some(&FromInstruction { image: "b".to_owned(), tag: Some("1".to_owned()), digest: None })
    );
    assert_eq!(find_last_from(&vec![misc("USER", "x")]), None);
}

#[test]
fn missing_from() {
    let expected = From { image: "alpine".to_owned(), tag: Some("3".to_owned()), digest: None };
    let mut out = Vec::new();
    test_from_instruction(&stage(vec![misc("USER", "x")]), &expected, &mut out);
    assert_eq!(out, vec![start_context(Some("FROM instruction")), close_context(Some(false))]);

    let manifest = Manifest { stages: vec![], comments: vec![] };
    let config = Config { from: Some(expected), ..nothing_expected() };
    assert_eq!(
        evaluate(&manifest, &config),
        vec![start_context(Some("FROM instruction")), close_context(Some(false))]
    );
}

#[test]
fn from_with_image_only() {
    let expected = From { image: "alpine".to_owned(), tag: None, digest: None };
    let mut out = Vec::new();
    test_from_instruction(&stage(vec![from("alpine", Some("3"), None)]), &expected, &mut out);
    assert_eq!(
        out,
        vec![
            start_context(Some("FROM instruction")),
            start_testcase("image"),
            start_test("alpine"),
            correct("alpine"),
            close_testcase(),
            close_context(None),
        ]
    );
}

#[test]
fn from_with_tag_and_digest() {
    let expected = From {
        image: "alpine".to_owned(),
        tag: Some("3.19".to_owned()),
        digest: Some("sha256:abc".to_owned()),
    };
    let mut out = Vec::new();
    test_from_instruction(&stage(vec![from("ubuntu", Some("3.18"), None)]), &expected, &mut out);
    assert_eq!(
        out,
        vec![
            start_context(Some("FROM instruction")),
            start_testcase("image"),
            start_test("alpine"),
            wrong("ubuntu", "image doesn't match requested \"alpine\""),
            close_testcase(),
            start_testcase("tag"),
            start_test("3.19"),
            wrong("3.18", "image tag doesn't match requested \"3.19\""),
            close_testcase(),
            start_testcase("digest"),
            start_test("sha256:abc"),
            wrong("", "image hash instruction not found"),
            close_testcase(),
            close_context(None),
        ]
    );
    let mut out = Vec::new();
    test_from_instruction(
        &stage(vec![from("alpine", None, Some("sha256:abc"))]),
        &expected,
        &mut out,
    );
    assert_eq!(
        verdict(&out),
        vec![StatusEnum::Correct, StatusEnum::Wrong, StatusEnum::Correct]
    );
    assert_eq!(out[7], wrong("", "image tag instruction not found"));
    assert_eq!(out[11], correct("sha256:abc"));
}

#[test]
fn port_with_default_protocol() {
    let stage = stage(vec![from("a", None, None), expose(&[(8080, None)])]);
    let mut out = Vec::new();
    test_expose_instruction(&stage, &vec![Port { number: 8080, protocol: None }], &mut out);
    assert_eq!(
        out,
        vec![
            start_context(Some("EXPOSE instruction")),
            start_testcase("8080/tcp"),
            start_test("8080"),
            correct("8080"),
            close_testcase(),
            start_testcase("protocol"),
            start_test("tcp"),
            correct("tcp"),
            close_testcase(),
            close_context(None),
        ]
    );
}

#[test]
fn ports_are_checked_in_order_and_each_time() {
    let stage = stage(vec![
        expose(&[(53, Some("udp")), (80, None)]),
        misc("USER", "x"),
        expose(&[(53, Some("tcp")), (443, Some("tcp"))]),
    ]);
    let expected = vec![
        Port { number: 443, protocol: None },
        Port { number: 53, protocol: None },
        Port { number: 1, protocol: Some("udp".to_owned()) },
        Port { number: 53, protocol: Some("udp".to_owned()) },
        Port { number: 80, protocol: Some("TCP".to_owned()) },
    ];
    let mut out = Vec::new();
    test_expose_instruction(&stage, &expected, &mut out);
    assert_eq!(
        out,
        vec![
            start_context(Some("EXPOSE instruction")),
            start_testcase("443/tcp"),
            start_test("443"),
            correct("443"),
            close_testcase(),
            start_testcase("protocol"),
            start_test("tcp"),
            correct("tcp"),
            close_testcase(),
            start_testcase("53/tcp"),
            start_test("53"),
            correct("53"),
            close_testcase(),
            start_testcase("protocol"),
            start_test("tcp"),
            wrong("udp", "image tag doesn't match requested \"tcp\""),
            close_testcase(),
            start_testcase("1/udp"),
            start_test("1"),
            wrong("", "expose instruction not found"),
            close_testcase(),
            start_testcase("53/udp"),
            start_test("53"),
            correct("53"),
            close_testcase(),
            start_testcase("protocol"),
            start_test("udp"),
            correct("udp"),
            close_testcase(),
            start_testcase("80/TCP"),
            start_test("80"),
            correct("80"),
            close_testcase(),
            start_testcase("protocol"),
            start_test("TCP"),
            wrong("tcp", "image tag doesn't match requested \"TCP\""),
            close_testcase(),
            close_context(None),
        ]
    );
}

#[test]
fn no_expected_port() {
    let mut out = Vec::new();
    test_expose_instruction(&stage(vec![expose(&[(80, None)])]), &Vec::new(), &mut out);
    assert_eq!(out, vec![start_context(Some("EXPOSE instruction")), close_context(None)]);
}

#[test]
fn declared_ports_are_flattened() {
    let list = vec![
        expose(&[(1, None), (2, Some("udp"))]),
        from("a", None, None),
        expose(&[]),
        expose(&[(2, None)]),
    ];
    let declared = collect_declared_ports(&list);
    assert_eq!(
        declared,
        vec![
            &ExposedPort { port: 1, protocol: None },
            &ExposedPort { port: 2, protocol: Some("udp".to_owned()) },
            &ExposedPort { port: 2, protocol: None },
        ]
    );
    assert_eq!(
        find_declared_port(&declared, 2),
        Some(&ExposedPort { port: 2, protocol: Some("udp".to_owned()) })
    );
    assert_eq!(find_declared_port(&declared, 3), None);
}

#[test]
fn required_comments() {
    let comments = vec!["# build stage".to_owned(), "# run as nobody".to_owned()];
    let required = vec!["nobody".to_owned(), "root".to_owned(), "".to_owned(), "# build".to_owned()];
    let mut out = Vec::new();
    test_comments(&comments, &required, &mut out);
    assert_eq!(
        out,
        vec![
            start_context(None),
            start_testcase("Comments"),
            start_test("nobody"),
            correct("nobody"),
            start_test("root"),
            wrong("", "No comment found containing \"root\""),
            start_test(""),
            correct(""),
            start_test("# build"),
            correct("# build"),
            close_testcase(),
            close_context(None),
        ]
    );
    assert!(any_comment_contains(&comments, "stage"));
    assert!(!any_comment_contains(&comments, "Stage"));
    assert!(!any_comment_contains(&comments, "stage# run"));
    assert!(!any_comment_contains(&Vec::new(), ""));
}

#[test]
fn no_required_comment() {
    let mut out = Vec::new();
    test_comments(&vec!["# a".to_owned()], &Vec::new(), &mut out);
    assert_eq!(
        out,
        vec![start_context(None), start_testcase("Comments"), close_testcase(), close_context(None)]
    );
}

#[test]
fn decimal_numerals() {
    assert_eq!(decimal_text(0), "0");
    assert_eq!(decimal_text(7), "7");
    assert_eq!(decimal_text(10), "10");
    assert_eq!(decimal_text(8080), "8080");
    assert_eq!(decimal_text(65535), "65535");
}

fn everything_expected() -> Config {
    Config {
        from: Some(From { image: "alpine".to_owned(), tag: Some("3.19".to_owned()), digest: None }),
        user: Some("bob".to_owned()),
        workdir: Some("/app".to_owned()),
        expose: Some(vec![Port { number: 8080, protocol: None }]),
        comments: Some(vec!["build".to_owned(), "deploy".to_owned()]),
    }
}

fn sample() -> Manifest {
    Manifest {
        stages: vec![stage(vec![from("ignored", None, None), misc("USER", "x")]), two_users()],
        comments: vec!["# build".to_owned()],
    }
}

#[test]
fn evaluation_is_well_nested() {
    let trace = evaluate(&sample(), &everything_expected());
    assert!(is_well_nested(&trace));
    assert!(trace.iter().all(|c| matches!(
        c,
        Command::StartContext { .. }
            | Command::CloseContext { .. }
            | Command::StartTestcase { .. }
            | Command::CloseTestcase { .. }
            | Command::StartTest { .. }
            | Command::CloseTest { .. }
    )));
    assert_eq!(
        verdict(&trace),
        vec![
            StatusEnum::Correct,
            StatusEnum::Wrong,
            StatusEnum::Correct,
            StatusEnum::Correct,
            StatusEnum::Correct,
            StatusEnum::Wrong,
            StatusEnum::Wrong,
        ]
    );
    let mut judgement = vec![Command::StartJudgement];
    judgement.extend(trace);
    judgement.push(Command::CloseJudgement { accepted: None, status: None });
    assert!(is_well_nested(&judgement));
}

#[test]
fn nothing_expected_gives_no_event() {
    assert_eq!(evaluate(&sample(), &nothing_expected()), Vec::new());
}

#[test]
fn only_the_last_stage_is_read() {
    let config = Config { user: Some("x".to_owned()), ..nothing_expected() };
    assert_eq!(verdict(&evaluate(&sample(), &config)), vec![StatusEnum::Wrong]);
    let config = Config { user: Some("bob".to_owned()), ..nothing_expected() };
    assert_eq!(verdict(&evaluate(&sample(), &config)), vec![StatusEnum::Correct]);
}

#[test]
fn categories_are_independent() {
    let manifest = sample();
    let all = everything_expected();
    let whole = encode_all(&evaluate(&manifest, &all));
    let parts = [
        Config { comments: all.comments.clone(), ..nothing_expected() },
        Config { from: all.from.clone(), ..nothing_expected() },
        Config { user: all.user.clone(), ..nothing_expected() },
        Config { workdir: all.workdir.clone(), ..nothing_expected() },
        Config { expose: all.expose.clone(), ..nothing_expected() },
    ];
    let lines: Vec<String> = parts.iter().map(|c| encode_all(&evaluate(&manifest, c))).collect();
    assert_eq!(whole, lines.concat());

    let without_workdir = Config { workdir: None, ..all.clone() };
    assert_eq!(
        encode_all(&evaluate(&manifest, &without_workdir)),
        [lines[0].as_str(), lines[1].as_str(), lines[2].as_str(), lines[4].as_str()].concat()
    );
    let without_comments = Config { comments: None, ..all.clone() };
    assert_eq!(encode_all(&evaluate(&manifest, &without_comments)), lines[1..].concat());
    let without_expose = Config { expose: None, ..all };
    assert_eq!(encode_all(&evaluate(&manifest, &without_expose)), lines[..4].concat());
}

#[test]
fn nesting_is_checked() {
    assert!(is_well_nested(&Vec::new()));
    assert!(is_well_nested(&vec![start_context(None), close_context(None)]));
    assert!(is_well_nested(&vec![
        Command::StartJudgement,
        Command::AppendMessage { message: Message::String("m".to_owned()) },
        Command::StartTab { title: "t".to_owned(), hidden: None, permission: None },
        start_context(None),
        start_testcase("c"),
        start_test("x"),
        correct("x"),
        start_test("y"),
        correct("y"),
        close_testcase(),
        close_context(None),
        Command::CloseTab { badge_count: None },
        Command::CloseJudgement { accepted: None, status: None },
    ]));
    assert!(!is_well_nested(&vec![close_context(None)]));
    assert!(!is_well_nested(&vec![start_context(None)]));
    assert!(!is_well_nested(&vec![start_context(None), close_testcase()]));
    assert!(!is_well_nested(&vec![start_context(None), start_test("x"), correct("x"), close_context(None)]));
    assert!(!is_well_nested(&vec![
        start_context(None),
        start_testcase("c"),
        close_context(None),
        close_testcase(),
    ]));
    assert!(!is_well_nested(&vec![
        start_testcase("c"),
        start_testcase("d"),
        close_testcase(),
        close_testcase(),
    ]));
    assert!(!is_well_nested(&vec![
        start_context(None),
        Command::StartJudgement,
        Command::CloseJudgement { accepted: None, status: None },
        close_context(None),
    ]));
}
