//! What holds of every evaluation.

use vstd::prelude::*;
use crate::config::{ConfigView, FromView, PortView};
use crate::evaluator::{
    close_context, close_test, close_testcase, comment_check, comment_checks, comment_part,
    comment_tests, compared_testcase, comparison, correct, declared_ports, evaluation,
    expose_checks, expose_part, find_port, from_checks, from_part, is_named, last_from, last_misc,
    misc_checks, misc_content, port_check, port_checks, protocol_or_tcp, start_context, start_test,
    start_testcase, user_part, workdir_part, wrong,
};
use crate::manifest::{DirectiveView, ExposedPortView, ManifestView};
use crate::nesting::{fold, lemma_fold_concat, Level, Move, movement, nests_in, step, well_nested};
use crate::protocol::CommandView;
use crate::text::{decimal, trimmed};
use crate::wire::{encode_trace, lemma_encode_trace_concat};

verus! {

/// Folding a single event is taking its step.
pub proof fn lemma_fold_one(open: Seq<Level>, event: CommandView)
    ensures
        fold(open, seq![event]) == step(open, movement(event)),
{
    let trace = seq![event];
    assert(trace[0] == event);
    assert(trace.drop_first() =~= Seq::<CommandView>::empty());
    match step(open, movement(event)) {
        Some(next) => {
            assert(fold(next, trace.drop_first()) == Some(next));
        },
        None => {},
    }
}

/// Folding two events is taking their steps in turn.
pub proof fn lemma_fold_two(open: Seq<Level>, first: CommandView, second: CommandView)
    ensures
        fold(open, seq![first, second]) == match step(open, movement(first)) {
            Some(mid) => step(mid, movement(second)),
            None => None,
        },
{
    assert(seq![first, second] =~= seq![first] + seq![second]);
    lemma_fold_concat(open, seq![first], seq![second]);
    lemma_fold_one(open, first);
    match step(open, movement(first)) {
        Some(mid) => {
            lemma_fold_one(mid, second);
        },
        None => {},
    }
}

/// A comparison opens and closes one test inside the open testcase.
pub proof fn lemma_comparison_nested(
    open: Seq<Level>,
    expected: Seq<char>,
    actual: Option<Seq<char>>,
    name: Seq<char>,
)
    requires
        open.len() > 0,
        open.last() == Level::Testcase,
    ensures
        fold(open, comparison(expected, actual, name)) == Some(open),
{
    let trace = comparison(expected, actual, name);
    lemma_fold_two(open, trace[0], trace[1]);
    assert(trace =~= seq![trace[0], trace[1]]);
    assert(open.push(Level::Test).drop_last() =~= open);
}

/// A testcase around one comparison opens and closes inside the open
/// context.
pub proof fn lemma_compared_testcase_nested(
    open: Seq<Level>,
    description: Seq<char>,
    expected: Seq<char>,
    actual: Option<Seq<char>>,
    name: Seq<char>,
)
    requires
        open.len() > 0,
        open.last() == Level::Context,
    ensures
        fold(open, compared_testcase(description, expected, actual, name)) == Some(open),
{
    let inner = open.push(Level::Testcase);
    let head = seq![start_testcase(description)];
    let body = comparison(expected, actual, name);
    let tail = seq![close_testcase()];
    lemma_fold_one(open, head[0]);
    lemma_comparison_nested(inner, expected, actual, name);
    lemma_fold_one(inner, tail[0]);
    lemma_fold_concat(open, head, body);
    lemma_fold_concat(open, head + body, tail);
    assert(inner.drop_last() =~= open);
}

/// The check of the base image opens and closes one context.
pub proof fn lemma_from_checks_nested(
    open: Seq<Level>,
    stage: Seq<DirectiveView>,
    expected: FromView,
)
    requires
        open.len() == 0 || nests_in(Level::Context, open.last()),
    ensures
        fold(open, from_checks(stage, expected)) == Some(open),
{
    let inner = open.push(Level::Context);
    let head = seq![start_context(Some("FROM instruction"@))];
    lemma_fold_one(open, head[0]);
    assert(inner.drop_last() =~= open);
    match last_from(stage) {
        Some(from) => {
            let image = compared_testcase("image"@, expected.image, Some(from.image), "image"@);
            let tag = match expected.tag {
                Some(tag) => compared_testcase("tag"@, tag, from.tag, "image tag"@),
                None => Seq::empty(),
            };
            let digest = match expected.digest {
                Some(digest) => compared_testcase("digest"@, digest, from.digest, "image hash"@),
                None => Seq::empty(),
            };
            let tail = seq![close_context(None)];
            lemma_compared_testcase_nested(inner, "image"@, expected.image, Some(from.image), "image"@);
            if let Some(t) = expected.tag {
                lemma_compared_testcase_nested(inner, "tag"@, t, from.tag, "image tag"@);
            }
            if let Some(d) = expected.digest {
                lemma_compared_testcase_nested(inner, "digest"@, d, from.digest, "image hash"@);
            }
            lemma_fold_one(inner, tail[0]);
            lemma_fold_concat(inner, image, tag);
            lemma_fold_concat(inner, image + tag, digest);
            lemma_fold_concat(inner, image + tag + digest, tail);
            lemma_fold_concat(open, head, image + tag + digest + tail);
        },
        None => {
            let tail = seq![close_context(Some(false))];
            lemma_fold_one(inner, tail[0]);
            lemma_fold_concat(open, head, tail);
        },
    }
}

/// The check of a generic instruction opens and closes one context.
pub proof fn lemma_misc_checks_nested(
    open: Seq<Level>,
    stage: Seq<DirectiveView>,
    name: Seq<char>,
    expected: Seq<char>,
)
    requires
        open.len() == 0 || nests_in(Level::Context, open.last()),
    ensures
        fold(open, misc_checks(stage, name, expected)) == Some(open),
{
    let context = open.push(Level::Context);
    let testcase = context.push(Level::Testcase);
    let head = seq![
        start_context(None),
        start_testcase(name + " instruction"@),
    ];
    let actual = match misc_content(stage, name) {
        Some(content) => Some(trimmed(content)),
        None => None,
    };
    let body = comparison(expected, actual, name);
    let tail = seq![close_testcase(), close_context(None)];
    lemma_fold_two(open, head[0], head[1]);
    assert(head =~= seq![head[0], head[1]]);
    lemma_comparison_nested(testcase, expected, actual, name);
    lemma_fold_two(testcase, tail[0], tail[1]);
    assert(tail =~= seq![tail[0], tail[1]]);
    assert(testcase.drop_last() =~= context);
    assert(context.drop_last() =~= open);
    lemma_fold_concat(open, head, body);
    lemma_fold_concat(open, head + body, tail);
}

/// The check of one expected port opens and closes its testcases inside the
/// open context.
pub proof fn lemma_port_check_nested(
    open: Seq<Level>,
    declared: Seq<ExposedPortView>,
    port: PortView,
)
    requires
        open.len() > 0,
        open.last() == Level::Context,
    ensures
        fold(open, port_check(declared, port)) == Some(open),
{
    let number = decimal(port.number as nat);
    let protocol = protocol_or_tcp(port.protocol);
    let testcase = open.push(Level::Testcase);
    let test = testcase.push(Level::Test);
    let head = seq![
        start_testcase(number + "/"@ + protocol),
        start_test(number),
    ];
    lemma_fold_two(open, head[0], head[1]);
    assert(head =~= seq![head[0], head[1]]);
    assert(test.drop_last() =~= testcase);
    assert(testcase.drop_last() =~= open);
    match find_port(declared, port.number) {
        Some(found) => {
            let shut = seq![
                close_test(number, correct()),
                close_testcase(),
            ];
            let second = compared_testcase(
                "protocol"@,
                protocol,
                Some(protocol_or_tcp(found.protocol)),
                "image tag"@,
            );
            lemma_fold_two(test, shut[0], shut[1]);
            assert(shut =~= seq![shut[0], shut[1]]);
            lemma_compared_testcase_nested(
                open,
                "protocol"@,
                protocol,
                Some(protocol_or_tcp(found.protocol)),
                "image tag"@,
            );
            lemma_fold_concat(test, shut, second);
            lemma_fold_concat(open, head, shut + second);
        },
        None => {
            let shut = seq![
                close_test(
                    Seq::empty(),
                    wrong("expose instruction not found"@),
                ),
                close_testcase(),
            ];
            lemma_fold_two(test, shut[0], shut[1]);
            assert(shut =~= seq![shut[0], shut[1]]);
            lemma_fold_concat(open, head, shut);
        },
    }
}

/// The checks of the expected ports leave the open context as they found it.
pub proof fn lemma_port_checks_nested(
    open: Seq<Level>,
    declared: Seq<ExposedPortView>,
    expected: Seq<PortView>,
)
    requires
        open.len() > 0,
        open.last() == Level::Context,
    ensures
        fold(open, port_checks(declared, expected)) == Some(open),
    decreases expected.len(),
{
    if expected.len() > 0 {
        lemma_port_checks_nested(open, declared, expected.drop_last());
        lemma_port_check_nested(open, declared, expected.last());
        lemma_fold_concat(
            open,
            port_checks(declared, expected.drop_last()),
            port_check(declared, expected.last()),
        );
    }
}

/// The check of the exposed ports opens and closes one context.
pub proof fn lemma_expose_checks_nested(
    open: Seq<Level>,
    stage: Seq<DirectiveView>,
    expected: Seq<PortView>,
)
    requires
        open.len() == 0 || nests_in(Level::Context, open.last()),
    ensures
        fold(open, expose_checks(stage, expected)) == Some(open),
{
    let inner = open.push(Level::Context);
    let head = seq![start_context(Some("EXPOSE instruction"@))];
    let body = port_checks(declared_ports(stage), expected);
    let tail = seq![close_context(None)];
    lemma_fold_one(open, head[0]);
    lemma_port_checks_nested(inner, declared_ports(stage), expected);
    lemma_fold_one(inner, tail[0]);
    assert(inner.drop_last() =~= open);
    lemma_fold_concat(open, head, body);
    lemma_fold_concat(open, head + body, tail);
}

/// The checks of the required texts leave the open testcase as they found
/// it.
pub proof fn lemma_comment_tests_nested(
    open: Seq<Level>,
    comments: Seq<Seq<char>>,
    required: Seq<Seq<char>>,
)
    requires
        open.len() > 0,
        open.last() == Level::Testcase,
    ensures
        fold(open, comment_tests(comments, required)) == Some(open),
    decreases required.len(),
{
    if required.len() > 0 {
        lemma_comment_tests_nested(open, comments, required.drop_last());
        let one = comment_check(comments, required.last());
        lemma_fold_two(open, one[0], one[1]);
        assert(one =~= seq![one[0], one[1]]);
        assert(open.push(Level::Test).drop_last() =~= open);
        lemma_fold_concat(open, comment_tests(comments, required.drop_last()), one);
    }
}

/// The check of the comments opens and closes one context.
pub proof fn lemma_comment_checks_nested(
    open: Seq<Level>,
    comments: Seq<Seq<char>>,
    required: Seq<Seq<char>>,
)
    requires
        open.len() == 0 || nests_in(Level::Context, open.last()),
    ensures
        fold(open, comment_checks(comments, required)) == Some(open),
{
    let context = open.push(Level::Context);
    let testcase = context.push(Level::Testcase);
    let head = seq![start_context(None), start_testcase("Comments"@)];
    let body = comment_tests(comments, required);
    let tail = seq![close_testcase(), close_context(None)];
    lemma_fold_two(open, head[0], head[1]);
    assert(head =~= seq![head[0], head[1]]);
    lemma_comment_tests_nested(testcase, comments, required);
    lemma_fold_two(testcase, tail[0], tail[1]);
    assert(tail =~= seq![tail[0], tail[1]]);
    assert(testcase.drop_last() =~= context);
    assert(context.drop_last() =~= open);
    lemma_fold_concat(open, head, body);
    lemma_fold_concat(open, head + body, tail);
}

/// Wherever a context may open, the trace of an evaluation opens and closes
/// its levels in order and leaves the open levels as it found them: inside a
/// judgement, inside a tab, or on its own.
pub proof fn lemma_evaluation_nests(open: Seq<Level>, manifest: ManifestView, config: ConfigView)
    requires
        open.len() == 0 || nests_in(Level::Context, open.last()),
    ensures
        fold(open, evaluation(manifest, config)) == Some(open),
{
    let stage = manifest.final_stage();
    let comments = comment_part(manifest, config.comments);
    let from = from_part(manifest, config.from);
    let user = user_part(manifest, config.user);
    let workdir = workdir_part(manifest, config.workdir);
    let expose = expose_part(manifest, config.expose);
    if let Some(required) = config.comments {
        lemma_comment_checks_nested(open, manifest.comments, required);
    }
    if let Some(expected) = config.from {
        lemma_from_checks_nested(open, stage, expected);
    }
    if let Some(expected) = config.user {
        lemma_misc_checks_nested(open, stage, "USER"@, expected);
    }
    if let Some(expected) = config.workdir {
        lemma_misc_checks_nested(open, stage, "WORKDIR"@, expected);
    }
    if let Some(expected) = config.expose {
        lemma_expose_checks_nested(open, stage, expected);
    }
    lemma_fold_concat(open, comments, from);
    lemma_fold_concat(open, comments + from, user);
    lemma_fold_concat(open, comments + from + user, workdir);
    lemma_fold_concat(open, comments + from + user + workdir, expose);
}

/// The trace of every evaluation is well nested: folded as a stack of opens
/// and closes it never closes what is not open and leaves nothing open.
pub proof fn lemma_evaluation_well_nested(manifest: ManifestView, config: ConfigView)
    ensures
        well_nested(evaluation(manifest, config)),
{
    lemma_evaluation_nests(Seq::empty(), manifest, config);
}

/// Between the opening and the closing of a judgement, the trace of an
/// evaluation makes a complete well nested judgement.
pub proof fn lemma_evaluation_completes_judgement(
    manifest: ManifestView,
    config: ConfigView,
    accepted: Option<bool>,
)
    ensures
        well_nested(
            seq![CommandView::StartJudgement] + evaluation(manifest, config) + seq![
                CommandView::CloseJudgement { accepted, status: None },
            ],
        ),
{
    let start = seq![CommandView::StartJudgement];
    let close = seq![CommandView::CloseJudgement { accepted, status: None }];
    let inner = Seq::<Level>::empty().push(Level::Judgement);
    lemma_fold_one(Seq::empty(), start[0]);
    lemma_evaluation_nests(inner, manifest, config);
    lemma_fold_one(inner, close[0]);
    assert(inner.drop_last() =~= Seq::<Level>::empty());
    lemma_fold_concat(Seq::empty(), start, evaluation(manifest, config));
    lemma_fold_concat(Seq::empty(), start + evaluation(manifest, config), close);
}

/// Whether an event opens or closes a context, a testcase or a test.
pub open spec fn reports_a_check(event: CommandView) -> bool {
    match movement(event) {
        Move::Open(level) | Move::Close(level) => level == Level::Context || level
            == Level::Testcase || level == Level::Test,
        Move::Stay => false,
    }
}

/// Whether every event of a piece of trace opens or closes a context, a
/// testcase or a test.
pub open spec fn reports_checks(trace: Seq<CommandView>) -> bool {
    forall|i: int| 0 <= i < trace.len() ==> reports_a_check(#[trigger] trace[i])
}

/// The checks of the expected ports open and close nothing but testcases and
/// tests.
pub proof fn lemma_port_checks_report_checks(
    declared: Seq<ExposedPortView>,
    expected: Seq<PortView>,
)
    ensures
        reports_checks(port_checks(declared, expected)),
    decreases expected.len(),
{
    if expected.len() > 0 {
        lemma_port_checks_report_checks(declared, expected.drop_last());
    }
}

/// The checks of the required texts open and close nothing but tests.
pub proof fn lemma_comment_tests_report_checks(comments: Seq<Seq<char>>, required: Seq<Seq<char>>)
    ensures
        reports_checks(comment_tests(comments, required)),
    decreases required.len(),
{
    if required.len() > 0 {
        lemma_comment_tests_report_checks(comments, required.drop_last());
    }
}

/// An evaluation opens and closes contexts, testcases and tests, and reports
/// nothing else: no judgement, no tab, no message of its own.
pub proof fn lemma_evaluation_reports_checks(manifest: ManifestView, config: ConfigView)
    ensures
        reports_checks(evaluation(manifest, config)),
{
    let stage = manifest.final_stage();
    if let Some(required) = config.comments {
        lemma_comment_tests_report_checks(manifest.comments, required);
    }
    if let Some(expected) = config.expose {
        lemma_port_checks_report_checks(declared_ports(stage), expected);
    }
    assert(reports_checks(comment_part(manifest, config.comments)));
    assert(reports_checks(from_part(manifest, config.from)));
    assert(reports_checks(user_part(manifest, config.user)));
    assert(reports_checks(workdir_part(manifest, config.workdir)));
    assert(reports_checks(expose_part(manifest, config.expose)));
}

/// A category of expectations.
pub enum Category {
    Comments,
    From,
    User,
    Workdir,
    Expose,
}

/// The expectations without those of one category.
pub open spec fn without(config: ConfigView, category: Category) -> ConfigView {
    match category {
        Category::Comments => ConfigView { comments: None, ..config },
        Category::From => ConfigView { from: None, ..config },
        Category::User => ConfigView { user: None, ..config },
        Category::Workdir => ConfigView { workdir: None, ..config },
        Category::Expose => ConfigView { expose: None, ..config },
    }
}

/// The events of one category.
pub open spec fn part(manifest: ManifestView, config: ConfigView, category: Category) -> Seq<
    CommandView,
> {
    match category {
        Category::Comments => comment_part(manifest, config.comments),
        Category::From => from_part(manifest, config.from),
        Category::User => user_part(manifest, config.user),
        Category::Workdir => workdir_part(manifest, config.workdir),
        Category::Expose => expose_part(manifest, config.expose),
    }
}

/// The events of the categories that are reported before a given one.
pub open spec fn before(manifest: ManifestView, config: ConfigView, category: Category) -> Seq<
    CommandView,
> {
    match category {
        Category::Comments => Seq::empty(),
        Category::From => comment_part(manifest, config.comments),
        Category::User => comment_part(manifest, config.comments) + from_part(
            manifest,
            config.from,
        ),
        Category::Workdir => comment_part(manifest, config.comments) + from_part(
            manifest,
            config.from,
        ) + user_part(manifest, config.user),
        Category::Expose => comment_part(manifest, config.comments) + from_part(
            manifest,
            config.from,
        ) + user_part(manifest, config.user) + workdir_part(manifest, config.workdir),
    }
}

/// The events of the categories that are reported after a given one.
pub open spec fn after(manifest: ManifestView, config: ConfigView, category: Category) -> Seq<
    CommandView,
> {
    match category {
        Category::Comments => from_part(manifest, config.from) + user_part(manifest, config.user)
            + workdir_part(manifest, config.workdir) + expose_part(manifest, config.expose),
        Category::From => user_part(manifest, config.user) + workdir_part(
            manifest,
            config.workdir,
        ) + expose_part(manifest, config.expose),
        Category::User => workdir_part(manifest, config.workdir) + expose_part(
            manifest,
            config.expose,
        ),
        Category::Workdir => expose_part(manifest, config.expose),
        Category::Expose => Seq::empty(),
    }
}

/// The categories are independent. The trace of an evaluation is the events
/// of the categories before a given one, then that category's own events,
/// then those of the categories after it. Leaving the category out of the
/// expectations takes its own events out of the trace and changes no other
/// event: what stands before and after is the same.
pub proof fn lemma_category_independence(
    manifest: ManifestView,
    config: ConfigView,
    category: Category,
)
    ensures
        evaluation(manifest, config) == before(manifest, config, category) + part(
            manifest,
            config,
            category,
        ) + after(manifest, config, category),
        evaluation(manifest, without(config, category)) == before(manifest, config, category)
            + after(manifest, config, category),
        part(manifest, without(config, category), category) == Seq::<CommandView>::empty(),
{
    let b = before(manifest, config, category);
    let p = part(manifest, config, category);
    let a = after(manifest, config, category);
    assert(evaluation(manifest, config) =~= b + p + a);
    assert(evaluation(manifest, without(config, category)) =~= b + a);
}

/// On the wire the categories are independent too: the encoded trace of an
/// evaluation is the encoding of what stands before a category, then the
/// encoding of the category's own events, then the encoding of what stands
/// after it. Leaving the category out takes its own lines out and leaves every
/// other character as it was.
pub proof fn lemma_category_independence_on_the_wire(
    manifest: ManifestView,
    config: ConfigView,
    category: Category,
)
    ensures
        encode_trace(evaluation(manifest, config)) == encode_trace(
            before(manifest, config, category),
        ) + encode_trace(part(manifest, config, category)) + encode_trace(
            after(manifest, config, category),
        ),
        encode_trace(evaluation(manifest, without(config, category))) == encode_trace(
            before(manifest, config, category),
        ) + encode_trace(after(manifest, config, category)),
{
    let b = before(manifest, config, category);
    let p = part(manifest, config, category);
    let a = after(manifest, config, category);
    lemma_category_independence(manifest, config, category);
    lemma_encode_trace_concat(b + p, a);
    lemma_encode_trace_concat(b, p);
    lemma_encode_trace_concat(b, a);
}

/// Among the generic instructions called `name`, the last one counts.
pub proof fn lemma_last_misc_wins(list: Seq<DirectiveView>, name: Seq<char>, at: int)
    requires
        0 <= at < list.len(),
        is_named(list[at], name),
        forall|later: int| at < later < list.len() ==> !is_named(#[trigger] list[later], name),
    ensures
        last_misc(list, name) == Some(list[at]->Misc_0),
    decreases list.len(),
{
    if at < list.len() - 1 {
        assert(!is_named(list[list.len() - 1], name));
        let rest = list.drop_last();
        assert(rest[at] == list[at]);
        assert forall|later: int| at < later < rest.len() implies !is_named(
            #[trigger] rest[later],
            name,
        ) by {
            assert(rest[later] == list[later]);
        }
        lemma_last_misc_wins(rest, name, at);
    }
}

/// Without a generic instruction called `name`, none is found.
pub proof fn lemma_no_misc(list: Seq<DirectiveView>, name: Seq<char>)
    requires
        forall|i: int| 0 <= i < list.len() ==> !is_named(#[trigger] list[i], name),
    ensures
        last_misc(list, name) is None,
    decreases list.len(),
{
    if list.len() > 0 {
        assert(!is_named(list[list.len() - 1], name));
        let rest = list.drop_last();
        assert forall|i: int| 0 <= i < rest.len() implies !is_named(#[trigger] rest[i], name) by {
            assert(rest[i] == list[i]);
        }
        lemma_no_misc(rest, name);
    }
}

/// Among the `FROM` instructions of a stage, the last one counts.
pub proof fn lemma_last_from_wins(list: Seq<DirectiveView>, at: int)
    requires
        0 <= at < list.len(),
        list[at] is From,
        forall|later: int| at < later < list.len() ==> !(#[trigger] list[later] is From),
    ensures
        last_from(list) == Some(list[at]->From_0),
    decreases list.len(),
{
    if at < list.len() - 1 {
        assert(!(list[list.len() - 1] is From));
        let rest = list.drop_last();
        assert(rest[at] == list[at]);
        assert forall|later: int| at < later < rest.len() implies !(#[trigger] rest[later]
            is From) by {
            assert(rest[later] == list[later]);
        }
        lemma_last_from_wins(rest, at);
    }
}

/// Without a `FROM` instruction, none is found.
pub proof fn lemma_no_from(list: Seq<DirectiveView>)
    requires
        forall|i: int| 0 <= i < list.len() ==> !(#[trigger] list[i] is From),
    ensures
        last_from(list) is None,
    decreases list.len(),
{
    if list.len() > 0 {
        assert(!(list[list.len() - 1] is From));
        let rest = list.drop_last();
        assert forall|i: int| 0 <= i < rest.len() implies !(#[trigger] rest[i] is From) by {
            assert(rest[i] == list[i]);
        }
        lemma_no_from(rest);
    }
}

/// Where the stage has no `FROM` instruction, the check of the base image
/// reports exactly one context, closed as not accepted, with no testcase in
/// it.
pub proof fn lemma_missing_from(stage: Seq<DirectiveView>, expected: FromView)
    requires
        forall|i: int| 0 <= i < stage.len() ==> !(#[trigger] stage[i] is From),
    ensures
        from_checks(stage, expected) == seq![
            start_context(Some("FROM instruction"@)),
            close_context(Some(false)),
        ],
{
    lemma_no_from(stage);
    assert(from_checks(stage, expected) =~= seq![
        start_context(Some("FROM instruction"@)),
        close_context(Some(false)),
    ]);
}

/// Among the declared ports with the expected number, the first one counts.
pub proof fn lemma_first_port_wins(declared: Seq<ExposedPortView>, number: u16, at: int)
    requires
        0 <= at < declared.len(),
        declared[at].port == number,
        forall|earlier: int| 0 <= earlier < at ==> (#[trigger] declared[earlier]).port != number,
    ensures
        find_port(declared, number) == Some(declared[at]),
    decreases declared.len(),
{
    if at > 0 {
        assert(declared[0].port != number);
        let rest = declared.drop_first();
        assert(rest[at - 1] == declared[at]);
        assert forall|earlier: int| 0 <= earlier < at - 1 implies (#[trigger] rest[earlier]).port
            != number by {
            assert(rest[earlier] == declared[earlier + 1]);
        }
        lemma_first_port_wins(rest, number, at - 1);
    }
}

/// Where no declared port has the expected number, none is found.
pub proof fn lemma_no_port(declared: Seq<ExposedPortView>, number: u16)
    requires
        forall|i: int| 0 <= i < declared.len() ==> (#[trigger] declared[i]).port != number,
    ensures
        find_port(declared, number) is None,
    decreases declared.len(),
{
    if declared.len() > 0 {
        assert(declared[0].port != number);
        let rest = declared.drop_first();
        assert forall|i: int| 0 <= i < rest.len() implies (#[trigger] rest[i]).port != number by {
            assert(rest[i] == declared[i + 1]);
        }
        lemma_no_port(rest, number);
    }
}

} // verus!
