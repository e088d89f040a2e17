//! The checks: what the manifest's final stage is held against, and the
//! events each check reports.
//!
//! Every check appends its events to the end of a trace and leaves the events
//! already there untouched. What it appends is given by a spec function of
//! the manifest and the expectation alone.

use vstd::prelude::*;
use crate::config::{Config, ConfigView, From, FromView, Port, ports, PortView, texts};
use crate::laws::{lemma_evaluation_reports_checks, lemma_evaluation_well_nested, reports_checks};
use crate::manifest::{
    Directive, directives, DirectiveView, exposed, ExposedPort, ExposedPortView, FromInstruction,
    FromInstructionView, join_literal_text, literal_text, Manifest, ManifestView,
    MiscInstructionView, Stage,
};
use crate::nesting::well_nested;
use crate::protocol::{
    Command, CommandView, emit, events, Message, MessageView, opt_text, Status, StatusEnum,
    StatusView,
};
use crate::text::{contains, decimal, decimal_text, eq_ignoring_ascii_case, has_substring, trimmed};

verus! {

/// The event that opens a context, described by `description` if there is
/// one.
pub open spec fn start_context(description: Option<Seq<char>>) -> CommandView {
    CommandView::StartContext {
        description: match description {
            Some(d) => Some(MessageView::String(d)),
            None => None,
        },
    }
}

/// The event that closes a context.
pub open spec fn close_context(accepted: Option<bool>) -> CommandView {
    CommandView::CloseContext { accepted }
}

/// The event that opens a testcase described by `description`.
pub open spec fn start_testcase(description: Seq<char>) -> CommandView {
    CommandView::StartTestcase { description: MessageView::String(description) }
}

/// The event that closes a testcase.
pub open spec fn close_testcase() -> CommandView {
    CommandView::CloseTestcase { accepted: None }
}

/// The event that opens a test expecting `expected`.
pub open spec fn start_test(expected: Seq<char>) -> CommandView {
    CommandView::StartTest { expected, format: None, description: None, channel: None }
}

/// The event that closes a test with the value found and the verdict.
pub open spec fn close_test(generated: Seq<char>, status: StatusView) -> CommandView {
    CommandView::CloseTest { generated, accepted: None, status }
}

/// The verdict of a check that passed.
pub open spec fn correct() -> StatusView {
    StatusView { enum_: StatusEnum::Correct, human: "Correct"@ }
}

/// The verdict of a check that failed, with the reason.
pub open spec fn wrong(human: Seq<char>) -> StatusView {
    StatusView { enum_: StatusEnum::Wrong, human }
}

/// What a mismatch between the expected value and the one found is reported
/// as.
pub open spec fn mismatch(name: Seq<char>, expected: Seq<char>) -> Seq<char> {
    name + " doesn't match requested \""@ + expected + "\""@
}

/// What a missing value is reported as.
pub open spec fn not_found(name: Seq<char>) -> Seq<char> {
    name + " instruction not found"@
}

/// The two events of one comparison: the test opens on the expected value and
/// closes on the value found. The verdict is `Correct` exactly when a value
/// was found and equals the expected one.
pub open spec fn comparison(expected: Seq<char>, actual: Option<Seq<char>>, name: Seq<char>) -> Seq<
    CommandView,
> {
    seq![
        start_test(expected),
        match actual {
            Some(value) => close_test(
                value,
                if value == expected {
                    correct()
                } else {
                    wrong(mismatch(name, expected))
                },
            ),
            None => close_test(Seq::empty(), wrong(not_found(name))),
        },
    ]
}

/// The characters of an optional string slice.
pub open spec fn opt_chars(s: Option<&str>) -> Option<Seq<char>> {
    match s {
        Some(t) => Some(t@),
        None => None,
    }
}

fn open_context(description: Option<&str>, out: &mut Vec<Command>)
    ensures
        events(final(out)@) == events(old(out)@).push(start_context(opt_chars(description))),
{
    let description = match description {
        Some(d) => Some(Message::String(d.to_owned())),
        None => None,
    };
    emit(out, Command::StartContext { description });
}

fn shut_context(accepted: Option<bool>, out: &mut Vec<Command>)
    ensures
        events(final(out)@) == events(old(out)@).push(close_context(accepted)),
{
    emit(out, Command::CloseContext { accepted });
}

fn open_testcase(description: String, out: &mut Vec<Command>)
    ensures
        events(final(out)@) == events(old(out)@).push(start_testcase(description@)),
{
    emit(out, Command::StartTestcase { description: Message::String(description) });
}

fn shut_testcase(out: &mut Vec<Command>)
    ensures
        events(final(out)@) == events(old(out)@).push(close_testcase()),
{
    emit(out, Command::CloseTestcase { accepted: None });
}

fn open_test(expected: &str, out: &mut Vec<Command>)
    ensures
        events(final(out)@) == events(old(out)@).push(start_test(expected@)),
{
    emit(
        out,
        Command::StartTest {
            expected: expected.to_owned(),
            format: None,
            description: None,
            channel: None,
        },
    );
}

fn shut_test(generated: String, status: Status, out: &mut Vec<Command>)
    ensures
        events(final(out)@) == events(old(out)@).push(close_test(generated@, status@)),
{
    emit(out, Command::CloseTest { generated, accepted: None, status });
}

fn passed() -> (r: Status)
    ensures
        r@ == correct(),
{
    Status { enum_: StatusEnum::Correct, human: "Correct".to_owned() }
}

fn failed(human: String) -> (r: Status)
    ensures
        r@ == wrong(human@),
{
    Status { enum_: StatusEnum::Wrong, human }
}

/// Reports one comparison: a test that expects `expected` and found `value`,
/// if anything was found. `name` says in the verdict what was compared.
pub fn cmp_test(expected: &str, value: Option<&str>, name: &str, out: &mut Vec<Command>)
    ensures
        events(final(out)@) == events(old(out)@) + comparison(expected@, opt_chars(value), name@),
{
    open_test(expected, out);
    match value {
        Some(value) => {
            let status = if *expected == *value {
                passed()
            } else {
                let mut human = name.to_owned();
                human.append(" doesn't match requested \"");
                human.append(expected);
                human.append("\"");
                failed(human)
            };
            shut_test(value.to_owned(), status, out);
        },
        None => {
            let mut human = name.to_owned();
            human.append(" instruction not found");
            shut_test(String::new(), failed(human), out);
        },
    }
    assert(events(out@) =~= events(old(out)@) + comparison(expected@, opt_chars(value), name@));
}

/// Whether `instruction` is a generic instruction called `name`, whatever the
/// case of its ASCII letters.
pub open spec fn is_named(instruction: DirectiveView, name: Seq<char>) -> bool {
    instruction matches DirectiveView::Misc(m) && eq_ignoring_ascii_case(name, m.name)
}

/// The last generic instruction called `name`: later instructions override
/// earlier ones.
pub open spec fn last_misc(list: Seq<DirectiveView>, name: Seq<char>) -> Option<
    MiscInstructionView,
>
    decreases list.len(),
{
    if list.len() == 0 {
        None
    } else if is_named(list.last(), name) {
        Some(list.last()->Misc_0)
    } else {
        last_misc(list.drop_last(), name)
    }
}

/// The literal argument of the last generic instruction called `name`, if
/// there is one.
pub open spec fn misc_content(list: Seq<DirectiveView>, name: Seq<char>) -> Option<Seq<char>> {
    match last_misc(list, name) {
        Some(m) => Some(literal_text(m.arguments)),
        None => None,
    }
}

/// The last `FROM` instruction: later instructions override earlier ones.
pub open spec fn last_from(list: Seq<DirectiveView>) -> Option<FromInstructionView>
    decreases list.len(),
{
    if list.len() == 0 {
        None
    } else if list.last() is From {
        Some(list.last()->From_0)
    } else {
        last_from(list.drop_last())
    }
}

/// The events of the check of one generic instruction: a context and a
/// testcase around the comparison of the expected value with the trimmed
/// argument of the last instruction called `name`.
pub open spec fn misc_checks(stage: Seq<DirectiveView>, name: Seq<char>, expected: Seq<char>) -> Seq<
    CommandView,
> {
    seq![start_context(None), start_testcase(name + " instruction"@)] + comparison(
        expected,
        match misc_content(stage, name) {
            Some(content) => Some(trimmed(content)),
            None => None,
        },
        name,
    ) + seq![close_testcase(), close_context(None)]
}

/// The events of one testcase that holds one comparison.
pub open spec fn compared_testcase(
    description: Seq<char>,
    expected: Seq<char>,
    actual: Option<Seq<char>>,
    name: Seq<char>,
) -> Seq<CommandView> {
    seq![start_testcase(description)] + comparison(expected, actual, name) + seq![close_testcase()]
}

/// The events of the check of the base image. Where the stage has no `FROM`
/// instruction the context closes as not accepted, with nothing inside. Else
/// the image name is compared, then the tag and the digest, each only where
/// one is expected.
pub open spec fn from_checks(stage: Seq<DirectiveView>, expected: FromView) -> Seq<CommandView> {
    seq![start_context(Some("FROM instruction"@))] + match last_from(stage) {
        Some(from) => compared_testcase("image"@, expected.image, Some(from.image), "image"@)
            + match expected.tag {
            Some(tag) => compared_testcase("tag"@, tag, from.tag, "image tag"@),
            None => Seq::empty(),
        } + match expected.digest {
            Some(digest) => compared_testcase("digest"@, digest, from.digest, "image hash"@),
            None => Seq::empty(),
        } + seq![close_context(None)],
        None => seq![close_context(Some(false))],
    }
}

/// The literal argument of the last generic instruction of `list` that is
/// called `name`, ASCII letters compared without regard to case. `None` where
/// no instruction has that name; an instruction with an empty argument gives
/// the empty string.
pub fn get_content_from_misc_instruction(list: &Vec<Directive>, name: &str) -> (r: Option<
    String,
>)
    ensures
        opt_text(r) == misc_content(directives(list@), name@),
{
    let ghost all = directives(list@);
    let mut i: usize = list.len();
    assert(all.take(i as int) =~= all);
    while i > 0
        invariant
            i <= list.len(),
            all == directives(list@),
            last_misc(all, name@) == last_misc(all.take(i as int), name@),
        decreases i,
    {
        i -= 1;
        proof {
            let upto = all.take(i + 1);
            assert(upto.drop_last() =~= all.take(i as int));
            assert(upto.last() == list@[i as int]@);
        }
        if let Directive::Misc(m) = &list[i] {
            if name.eq_ignore_ascii_case(m.name.as_str()) {
                return Some(join_literal_text(&m.arguments));
            }
        }
    }
    None
}

/// The last `FROM` instruction of `list`, if it has one.
pub fn find_last_from(list: &Vec<Directive>) -> (r: Option<&FromInstruction>)
    ensures
        match r {
            Some(from) => last_from(directives(list@)) == Some(from@),
            None => last_from(directives(list@)) is None,
        },
{
    let ghost all = directives(list@);
    let mut i: usize = list.len();
    assert(all.take(i as int) =~= all);
    while i > 0
        invariant
            i <= list.len(),
            all == directives(list@),
            last_from(all) == last_from(all.take(i as int)),
        decreases i,
    {
        i -= 1;
        proof {
            let upto = all.take(i + 1);
            assert(upto.drop_last() =~= all.take(i as int));
            assert(upto.last() == list@[i as int]@);
        }
        if let Directive::From(from) = &list[i] {
            return Some(from);
        }
    }
    None
}

/// The string slice inside an optional string.
fn as_slice(s: &Option<String>) -> (r: Option<&str>)
    ensures
        opt_chars(r) == opt_text(*s),
{
    match s {
        Some(t) => Some(t.as_str()),
        None => None,
    }
}

/// Reports one testcase that holds one comparison.
fn cmp_testcase(
    description: &str,
    expected: &str,
    value: Option<&str>,
    name: &str,
    out: &mut Vec<Command>,
)
    ensures
        events(final(out)@) == events(old(out)@) + compared_testcase(
            description@,
            expected@,
            opt_chars(value),
            name@,
        ),
{
    open_testcase(description.to_owned(), out);
    cmp_test(expected, value, name, out);
    shut_testcase(out);
    assert(events(out@) =~= events(old(out)@) + compared_testcase(
        description@,
        expected@,
        opt_chars(value),
        name@,
    ));
}

/// Checks the base image of `stage` against `expected` and reports it in one
/// context: the last `FROM` instruction of the stage counts. Without any, the
/// context closes as not accepted and holds no testcase.
pub fn test_from_instruction(stage: &Stage, expected: &From, out: &mut Vec<Command>)
    ensures
        events(final(out)@) == events(old(out)@) + from_checks(stage@, expected@),
{
    open_context(Some("FROM instruction"), out);
    match find_last_from(&stage.instructions) {
        Some(from) => {
            cmp_testcase("image", expected.image.as_str(), Some(from.image.as_str()), "image", out);
            if let Some(tag) = &expected.tag {
                cmp_testcase("tag", tag.as_str(), as_slice(&from.tag), "image tag", out);
            }
            if let Some(digest) = &expected.digest {
                cmp_testcase("digest", digest.as_str(), as_slice(&from.digest), "image hash", out);
            }
            shut_context(None, out);
        },
        None => {
            shut_context(Some(false), out);
        },
    }
    assert(events(out@) =~= events(old(out)@) + from_checks(stage@, expected@));
}

/// Checks the generic instruction `name` of `stage` against the expected
/// `argument` and reports it in one context with one testcase: the last
/// instruction with that name counts, and its argument is compared without
/// the white space around it.
pub fn test_misc_instruction(stage: &Stage, name: &str, argument: &str, out: &mut Vec<Command>)
    ensures
        events(final(out)@) == events(old(out)@) + misc_checks(stage@, name@, argument@),
{
    open_context(None, out);
    let mut description = name.to_owned();
    description.append(" instruction");
    open_testcase(description, out);
    match get_content_from_misc_instruction(&stage.instructions, name) {
        Some(content) => {
            cmp_test(argument, Some(content.as_str().trim()), name, out);
        },
        None => {
            cmp_test(argument, None, name, out);
        },
    }
    shut_testcase(out);
    shut_context(None, out);
    assert(events(out@) =~= events(old(out)@) + misc_checks(stage@, name@, argument@));
}

/// Every port that the `EXPOSE` instructions of a stage declare, in source
/// order.
pub open spec fn declared_ports(list: Seq<DirectiveView>) -> Seq<ExposedPortView>
    decreases list.len(),
{
    if list.len() == 0 {
        Seq::empty()
    } else {
        declared_ports(list.drop_last()) + match list.last() {
            DirectiveView::Expose(e) => e.ports,
            _ => Seq::empty(),
        }
    }
}

/// The first declared port with the given number.
pub open spec fn find_port(declared: Seq<ExposedPortView>, number: u16) -> Option<ExposedPortView>
    decreases declared.len(),
{
    if declared.len() == 0 {
        None
    } else if declared[0].port == number {
        Some(declared[0])
    } else {
        find_port(declared.drop_first(), number)
    }
}

/// The protocol that is meant: the one given, or `tcp`.
pub open spec fn protocol_or_tcp(protocol: Option<Seq<char>>) -> Seq<char> {
    match protocol {
        Some(p) => p,
        None => "tcp"@,
    }
}

/// The events of the check of one expected port. The first testcase tests
/// that a port with that number is declared. Only where one is, a second
/// testcase compares the protocols, each `tcp` unless stated; protocols that
/// differ are reported in the words of an image tag that differs.
pub open spec fn port_check(declared: Seq<ExposedPortView>, port: PortView) -> Seq<CommandView> {
    let number = decimal(port.number as nat);
    let protocol = protocol_or_tcp(port.protocol);
    seq![start_testcase(number + "/"@ + protocol), start_test(number)] + match find_port(
        declared,
        port.number,
    ) {
        Some(found) => seq![close_test(number, correct()), close_testcase()] + compared_testcase(
            "protocol"@,
            protocol,
            Some(protocol_or_tcp(found.protocol)),
            "image tag"@,
        ),
        None => seq![
            close_test(Seq::empty(), wrong("expose instruction not found"@)),
            close_testcase(),
        ],
    }
}

/// The events of the checks of the expected ports, one after the other in the
/// order given; a port listed twice is checked twice.
pub open spec fn port_checks(declared: Seq<ExposedPortView>, expected: Seq<PortView>) -> Seq<
    CommandView,
>
    decreases expected.len(),
{
    if expected.len() == 0 {
        Seq::empty()
    } else {
        port_checks(declared, expected.drop_last()) + port_check(declared, expected.last())
    }
}

/// The events of the check of the exposed ports: one context around the
/// checks of the expected ports.
pub open spec fn expose_checks(stage: Seq<DirectiveView>, expected: Seq<PortView>) -> Seq<
    CommandView,
> {
    seq![start_context(Some("EXPOSE instruction"@))] + port_checks(
        declared_ports(stage),
        expected,
    ) + seq![close_context(None)]
}

/// Whether one of the comments contains `part`.
pub open spec fn mentioned(comments: Seq<Seq<char>>, part: Seq<char>) -> bool {
    exists|k: int| 0 <= k < comments.len() && contains(#[trigger] comments[k], part)
}

/// What a required text that no comment contains is reported as.
pub open spec fn no_comment(part: Seq<char>) -> Seq<char> {
    "No comment found containing \""@ + part + "\""@
}

/// The two events of the check of one required text.
pub open spec fn comment_check(comments: Seq<Seq<char>>, part: Seq<char>) -> Seq<CommandView> {
    seq![
        start_test(part),
        if mentioned(comments, part) {
            close_test(part, correct())
        } else {
            close_test(Seq::empty(), wrong(no_comment(part)))
        },
    ]
}

/// The events of the checks of the required texts, in the order given.
pub open spec fn comment_tests(comments: Seq<Seq<char>>, required: Seq<Seq<char>>) -> Seq<
    CommandView,
>
    decreases required.len(),
{
    if required.len() == 0 {
        Seq::empty()
    } else {
        comment_tests(comments, required.drop_last()) + comment_check(comments, required.last())
    }
}

/// The events of the check of the comments: one context and one testcase
/// around the checks of all required texts.
pub open spec fn comment_checks(comments: Seq<Seq<char>>, required: Seq<Seq<char>>) -> Seq<
    CommandView,
> {
    seq![start_context(None), start_testcase("Comments"@)] + comment_tests(comments, required)
        + seq![close_testcase(), close_context(None)]
}

/// The views of borrowed exposed ports.
pub open spec fn borrowed(list: Seq<&ExposedPort>) -> Seq<ExposedPortView> {
    list.map_values(|p: &ExposedPort| p@)
}

/// Every port that the `EXPOSE` instructions of `list` declare, in source
/// order.
pub fn collect_declared_ports(list: &Vec<Directive>) -> (r: Vec<&ExposedPort>)
    ensures
        borrowed(r@) == declared_ports(directives(list@)),
{
    let ghost all = directives(list@);
    let mut r: Vec<&ExposedPort> = Vec::new();
    let mut i: usize = 0;
    assert(borrowed(r@) =~= declared_ports(all.take(0)));
    while i < list.len()
        invariant
            i <= list.len(),
            all == directives(list@),
            borrowed(r@) == declared_ports(all.take(i as int)),
        decreases list.len() - i,
    {
        proof {
            let next = all.take(i + 1);
            assert(next.drop_last() =~= all.take(i as int));
            assert(next.last() == list@[i as int]@);
        }
        match &list[i] {
            Directive::Expose(e) => {
                let ghost before = borrowed(r@);
                let mut j: usize = 0;
                while j < e.ports.len()
                    invariant
                        j <= e.ports.len(),
                        borrowed(r@) == before + exposed(e.ports@).take(j as int),
                    decreases e.ports.len() - j,
                {
                    let ghost so_far = borrowed(r@);
                    r.push(&e.ports[j]);
                    assert(borrowed(r@) =~= so_far.push(e.ports@[j as int]@));
                    assert(exposed(e.ports@).take(j + 1) =~= exposed(e.ports@).take(j as int).push(
                        e.ports@[j as int]@,
                    ));
                    j += 1;
                }
                assert(exposed(e.ports@).take(j as int) =~= exposed(e.ports@));
            },
            _ => {
                assert(borrowed(r@) + Seq::<ExposedPortView>::empty() =~= borrowed(r@));
            },
        }
        i += 1;
    }
    assert(all.take(i as int) =~= all);
    r
}

/// The first of the declared ports that has the given number.
pub fn find_declared_port<'a>(declared: &Vec<&'a ExposedPort>, number: u16) -> (r: Option<
    &'a ExposedPort,
>)
    ensures
        match r {
            Some(found) => find_port(borrowed(declared@), number) == Some(found@),
            None => find_port(borrowed(declared@), number) is None,
        },
{
    let ghost all = borrowed(declared@);
    let mut i: usize = 0;
    assert(all.skip(0) =~= all);
    while i < declared.len()
        invariant
            i <= declared.len(),
            all == borrowed(declared@),
            find_port(all, number) == find_port(all.skip(i as int), number),
        decreases declared.len() - i,
    {
        proof {
            let rest = all.skip(i as int);
            assert(rest.drop_first() =~= all.skip(i + 1));
            assert(rest[0] == declared@[i as int]@);
        }
        if declared[i].port == number {
            return Some(declared[i]);
        }
        i += 1;
    }
    None
}

/// The protocol that is meant: the one given, or `tcp`.
fn protocol_text(protocol: &Option<String>) -> (r: &str)
    ensures
        r@ == protocol_or_tcp(opt_text(*protocol)),
{
    match protocol {
        Some(p) => p.as_str(),
        None => "tcp",
    }
}

/// Reports the check of one expected port against the declared ones.
fn check_port(declared: &Vec<&ExposedPort>, port: &Port, out: &mut Vec<Command>)
    ensures
        events(final(out)@) == events(old(out)@) + port_check(borrowed(declared@), port@),
{
    let number = decimal_text(port.number);
    let protocol = protocol_text(&port.protocol);
    let mut description = number.clone();
    description.append("/");
    description.append(protocol);
    open_testcase(description, out);
    open_test(number.as_str(), out);
    match find_declared_port(declared, port.number) {
        Some(found) => {
            shut_test(number, passed(), out);
            shut_testcase(out);
            cmp_testcase(
                "protocol",
                protocol,
                Some(protocol_text(&found.protocol)),
                "image tag",
                out,
            );
        },
        None => {
            shut_test(String::new(), failed("expose instruction not found".to_owned()), out);
            shut_testcase(out);
        },
    }
    assert(events(out@) =~= events(old(out)@) + port_check(borrowed(declared@), port@));
}

/// Checks the ports that `stage` exposes against the expected ones and
/// reports it in one context. Each expected port is looked up among all ports
/// that the stage declares, whatever instruction declares them.
pub fn test_expose_instruction(stage: &Stage, expected: &Vec<Port>, out: &mut Vec<Command>)
    ensures
        events(final(out)@) == events(old(out)@) + expose_checks(stage@, ports(expected@)),
{
    open_context(Some("EXPOSE instruction"), out);
    let declared = collect_declared_ports(&stage.instructions);
    let ghost opened = events(out@);
    let ghost wanted = ports(expected@);
    let mut i: usize = 0;
    assert(opened + port_checks(borrowed(declared@), wanted.take(0)) =~= opened);
    while i < expected.len()
        invariant
            i <= expected.len(),
            wanted == ports(expected@),
            events(out@) == opened + port_checks(borrowed(declared@), wanted.take(i as int)),
        decreases expected.len() - i,
    {
        proof {
            let next = wanted.take(i + 1);
            assert(next.drop_last() =~= wanted.take(i as int));
            assert(next.last() == expected@[i as int]@);
        }
        check_port(&declared, &expected[i], out);
        assert(events(out@) =~= opened + port_checks(borrowed(declared@), wanted.take(i + 1)));
        i += 1;
    }
    assert(wanted.take(i as int) =~= wanted);
    shut_context(None, out);
    assert(events(out@) =~= events(old(out)@) + expose_checks(stage@, ports(expected@)));
}

/// Whether one of the comments contains `part`.
pub fn any_comment_contains(comments: &Vec<String>, part: &str) -> (r: bool)
    ensures
        r == mentioned(texts(comments@), part@),
{
    let mut i: usize = 0;
    while i < comments.len()
        invariant
            i <= comments.len(),
            forall|k: int| 0 <= k < i ==> !contains(#[trigger] texts(comments@)[k], part@),
        decreases comments.len() - i,
    {
        if has_substring(comments[i].as_str(), part) {
            assert(contains(texts(comments@)[i as int], part@));
            return true;
        }
        i += 1;
    }
    false
}

/// Reports the check of one required text against the comments.
fn check_comment(comments: &Vec<String>, part: &str, out: &mut Vec<Command>)
    ensures
        events(final(out)@) == events(old(out)@) + comment_check(texts(comments@), part@),
{
    open_test(part, out);
    if any_comment_contains(comments, part) {
        shut_test(part.to_owned(), passed(), out);
    } else {
        let mut human = "No comment found containing \"".to_owned();
        human.append(part);
        human.append("\"");
        shut_test(String::new(), failed(human), out);
    }
    assert(events(out@) =~= events(old(out)@) + comment_check(texts(comments@), part@));
}

/// Checks that each required text stands in some comment of the manifest and
/// reports it in one context with one testcase, one test for each text in the
/// order given.
pub fn test_comments(comments: &Vec<String>, required: &Vec<String>, out: &mut Vec<Command>)
    ensures
        events(final(out)@) == events(old(out)@) + comment_checks(
            texts(comments@),
            texts(required@),
        ),
{
    open_context(None, out);
    open_testcase("Comments".to_owned(), out);
    let ghost opened = events(out@);
    let ghost wanted = texts(required@);
    let mut i: usize = 0;
    assert(opened + comment_tests(texts(comments@), wanted.take(0)) =~= opened);
    while i < required.len()
        invariant
            i <= required.len(),
            wanted == texts(required@),
            events(out@) == opened + comment_tests(texts(comments@), wanted.take(i as int)),
        decreases required.len() - i,
    {
        proof {
            let next = wanted.take(i + 1);
            assert(next.drop_last() =~= wanted.take(i as int));
            assert(next.last() == required@[i as int]@);
        }
        check_comment(comments, required[i].as_str(), out);
        assert(events(out@) =~= opened + comment_tests(texts(comments@), wanted.take(i + 1)));
        i += 1;
    }
    assert(wanted.take(i as int) =~= wanted);
    shut_testcase(out);
    shut_context(None, out);
    assert(events(out@) =~= events(old(out)@) + comment_checks(
        texts(comments@),
        texts(required@),
    ));
}

/// The events of the comment category: its checks where texts are required,
/// nothing where the expectation leaves the category out.
pub open spec fn comment_part(manifest: ManifestView, required: Option<Seq<Seq<char>>>) -> Seq<
    CommandView,
> {
    match required {
        Some(list) => comment_checks(manifest.comments, list),
        None => Seq::empty(),
    }
}

/// The events of the base image category.
pub open spec fn from_part(manifest: ManifestView, expected: Option<FromView>) -> Seq<CommandView> {
    match expected {
        Some(from) => from_checks(manifest.final_stage(), from),
        None => Seq::empty(),
    }
}

/// The events of the user category.
pub open spec fn user_part(manifest: ManifestView, expected: Option<Seq<char>>) -> Seq<CommandView> {
    match expected {
        Some(user) => misc_checks(manifest.final_stage(), "USER"@, user),
        None => Seq::empty(),
    }
}

/// The events of the working directory category.
pub open spec fn workdir_part(manifest: ManifestView, expected: Option<Seq<char>>) -> Seq<
    CommandView,
> {
    match expected {
        Some(workdir) => misc_checks(manifest.final_stage(), "WORKDIR"@, workdir),
        None => Seq::empty(),
    }
}

/// The events of the exposed ports category.
pub open spec fn expose_part(manifest: ManifestView, expected: Option<Seq<PortView>>) -> Seq<
    CommandView,
> {
    match expected {
        Some(list) => expose_checks(manifest.final_stage(), list),
        None => Seq::empty(),
    }
}

/// The whole trace of an evaluation: the categories in a fixed order, each
/// a function of the manifest and of its own expectation alone.
pub open spec fn evaluation(manifest: ManifestView, config: ConfigView) -> Seq<CommandView> {
    comment_part(manifest, config.comments) + from_part(manifest, config.from) + user_part(
        manifest,
        config.user,
    ) + workdir_part(manifest, config.workdir) + expose_part(manifest, config.expose)
}

/// Holds the manifest against the expectations and returns the trace of
/// events: comments, base image, user, working directory and exposed ports,
/// each category only where the expectation names it. All but the comments
/// are read from the manifest's last stage; a manifest without a stage is
/// read as one whose last stage is empty. The trace is well nested, and holds
/// nothing but the opening and closing of contexts, testcases and tests.
pub fn evaluate(manifest: &Manifest, config: &Config) -> (out: Vec<Command>)
    ensures
        events(out@) == evaluation(manifest@, config@),
        well_nested(events(out@)),
        reports_checks(events(out@)),
{
    proof {
        lemma_evaluation_well_nested(manifest@, config@);
        lemma_evaluation_reports_checks(manifest@, config@);
    }
    let mut out: Vec<Command> = Vec::new();
    let none = Stage { instructions: Vec::new() };
    let stage = if manifest.stages.len() > 0 {
        &manifest.stages[manifest.stages.len() - 1]
    } else {
        assert(none@ =~= manifest@.final_stage());
        &none
    };
    assert(stage@ == manifest@.final_stage());
    assert(events(out@) =~= Seq::empty());
    if let Some(required) = &config.comments {
        test_comments(&manifest.comments, required, &mut out);
    }
    if let Some(from) = &config.from {
        test_from_instruction(stage, from, &mut out);
    }
    if let Some(user) = &config.user {
        test_misc_instruction(stage, "USER", user.as_str(), &mut out);
    }
    if let Some(workdir) = &config.workdir {
        test_misc_instruction(stage, "WORKDIR", workdir.as_str(), &mut out);
    }
    if let Some(expected) = &config.expose {
        test_expose_instruction(stage, expected, &mut out);
    }
    assert(events(out@) =~= evaluation(manifest@, config@));
    out
}

} // verus!
