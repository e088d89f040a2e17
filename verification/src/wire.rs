//! The wire encoding of the judgement protocol: one JSON object for each
//! event, on a line of its own.
//!
//! The object starts with the field `command`, which names the event. The
//! fields of the event follow in a fixed order; a field whose value is absent
//! is left out altogether.

use vstd::prelude::*;
use crate::decode::{decode_trace, decoded};
use crate::protocol::{
    Command, CommandView, events, Message, MessageView, opt_message, opt_status, opt_text,
    Permission, Severity, Status, StatusEnum, StatusView, TestFormat,
};
use crate::roundtrip::{lemma_round_trip, lemma_trace_round_trip};
use crate::text::{decimal, decimal_text};

verus! {

/// The error of the `serde_json` crate.
#[verifier::external_type_specification]
#[verifier::external_body]
pub struct ExJsonError(serde_json::Error);

/// The lower-case hexadecimal digit for a number below sixteen.
pub open spec fn hex_digit(n: nat) -> char {
    if n < 10 {
        (('0' as u32 + n) as u8) as char
    } else {
        (('a' as u32 + n - 10) as u8) as char
    }
}

/// How one character stands inside a JSON string: a quote and a backslash
/// after a backslash; backspace, tab, line feed, form feed and carriage
/// return by their letters; any other control character below U+0020 as
/// `\u00` and two hexadecimal digits; any other character as it is.
pub open spec fn escaped(c: char) -> Seq<char> {
    let u = c as u32;
    if u == 0x22 {
        "\\\""@
    } else if u == 0x5C {
        "\\\\"@
    } else if u == 0x08 {
        "\\b"@
    } else if u == 0x09 {
        "\\t"@
    } else if u == 0x0A {
        "\\n"@
    } else if u == 0x0C {
        "\\f"@
    } else if u == 0x0D {
        "\\r"@
    } else if u < 0x20 {
        "\\u00"@ + seq![hex_digit((u / 16) as nat), hex_digit((u % 16) as nat)]
    } else {
        seq![c]
    }
}

/// The characters of a text as they stand inside a JSON string.
pub open spec fn escape(s: Seq<char>) -> Seq<char>
    decreases s.len(),
{
    if s.len() == 0 {
        Seq::empty()
    } else {
        escaped(s[0]) + escape(s.drop_first())
    }
}

/// A text as a JSON string: its escaped characters between two quotes.
pub open spec fn json_string(s: Seq<char>) -> Seq<char> {
    "\""@ + escape(s) + "\""@
}

/// `serde_json::to_string` on a string slice: it succeeds, and gives the
/// text as a JSON string.
#[verifier::external_body]
fn quote(text: &str) -> (r: Result<String, serde_json::Error>)
    ensures
        match r {
            Ok(quoted) => quoted@ == json_string(text@),
            Err(_) => false,
        },
{
    serde_json::to_string(text)
}

/// What introduces the first field of an object: its name as a JSON string
/// and a colon.
pub open spec fn first_key(name: Seq<char>) -> Seq<char> {
    json_string(name) + ":"@
}

/// What introduces a later field of an object: a comma before what would
/// introduce a first field.
pub open spec fn key(name: Seq<char>) -> Seq<char> {
    ","@ + first_key(name)
}

/// The first field of an object with its value.
pub open spec fn first_field(name: Seq<char>, value: Seq<char>) -> Seq<char> {
    first_key(name) + value
}

/// A later field of an object with its value.
pub open spec fn field(name: Seq<char>, value: Seq<char>) -> Seq<char> {
    key(name) + value
}

/// The JSON literal of a truth value.
pub open spec fn bool_text(b: bool) -> Seq<char> {
    if b {
        "true"@
    } else {
        "false"@
    }
}

/// The wire name of a permission.
pub open spec fn permission_name(p: Permission) -> Seq<char> {
    match p {
        Permission::Student => "student"@,
        Permission::Staff => "staff"@,
        Permission::Zeus => "zeus"@,
    }
}

/// The wire name of a test format.
pub open spec fn format_name(f: TestFormat) -> Seq<char> {
    match f {
        TestFormat::Text => "text"@,
        TestFormat::CSV => "c-s-v"@,
    }
}

/// The wire name of a severity.
pub open spec fn severity_name(s: Severity) -> Seq<char> {
    match s {
        Severity::Error => "error"@,
        Severity::Warning => "warning"@,
        Severity::Info => "info"@,
    }
}

/// The wire name of a verdict.
pub open spec fn status_name(s: StatusEnum) -> Seq<char> {
    match s {
        StatusEnum::InternalError => "internal-error"@,
        StatusEnum::CompilationError => "compilation-error"@,
        StatusEnum::MemoryLimitExceeded => "memory-limit-exceeded"@,
        StatusEnum::TimeLimitExceeded => "time-limit-exceeded"@,
        StatusEnum::OutputLimitExceeded => "output-limit-exceeded"@,
        StatusEnum::RuntimeError => "runtime-error"@,
        StatusEnum::Wrong => "wrong"@,
        StatusEnum::Correct => "correct"@,
    }
}

/// The wire name of an event.
pub open spec fn command_name(c: CommandView) -> Seq<char> {
    match c {
        CommandView::StartJudgement => "start-judgement"@,
        CommandView::StartTab { .. } => "start-tab"@,
        CommandView::StartContext { .. } => "start-context"@,
        CommandView::StartTestcase { .. } => "start-testcase"@,
        CommandView::StartTest { .. } => "start-test"@,
        CommandView::AppendMessage { .. } => "append-message"@,
        CommandView::AnnotateCode { .. } => "annotate-code"@,
        CommandView::EscalateStatus { .. } => "escalate-status"@,
        CommandView::CloseTest { .. } => "close-test"@,
        CommandView::CloseTestcase { .. } => "close-testcase"@,
        CommandView::CloseContext { .. } => "close-context"@,
        CommandView::CloseTab { .. } => "close-tab"@,
        CommandView::CloseJudgement { .. } => "close-judgement"@,
    }
}

/// A message on the wire: plain text as a JSON string, a formatted message
/// as an object of its three fields.
pub open spec fn encode_message(m: MessageView) -> Seq<char> {
    match m {
        MessageView::String(s) => json_string(s),
        MessageView::Object { format, description, permission } => "{"@ + first_field(
            "format"@,
            json_string(format),
        ) + field("description"@, json_string(description)) + field(
            "permission"@,
            json_string(permission_name(permission)),
        ) + "}"@,
    }
}

/// A status on the wire: an object of its two fields.
pub open spec fn encode_status(s: StatusView) -> Seq<char> {
    "{"@ + first_field("enum"@, json_string(status_name(s.enum_))) + field(
        "human"@,
        json_string(s.human),
    ) + "}"@
}

/// An optional truth value as a field.
pub open spec fn optional_bool(name: Seq<char>, value: Option<bool>) -> Seq<char> {
    match value {
        Some(b) => field(name, bool_text(b)),
        None => Seq::empty(),
    }
}

/// An optional number as a field.
pub open spec fn optional_number(name: Seq<char>, value: Option<u16>) -> Seq<char> {
    match value {
        Some(n) => field(name, decimal(n as nat)),
        None => Seq::empty(),
    }
}

/// An optional text as a field.
pub open spec fn optional_string(name: Seq<char>, value: Option<Seq<char>>) -> Seq<char> {
    match value {
        Some(s) => field(name, json_string(s)),
        None => Seq::empty(),
    }
}

/// An optional message as a field.
pub open spec fn optional_message(name: Seq<char>, value: Option<MessageView>) -> Seq<char> {
    match value {
        Some(m) => field(name, encode_message(m)),
        None => Seq::empty(),
    }
}

/// An optional status as a field.
pub open spec fn optional_status(name: Seq<char>, value: Option<StatusView>) -> Seq<char> {
    match value {
        Some(s) => field(name, encode_status(s)),
        None => Seq::empty(),
    }
}

/// The wire name of an optional permission.
pub open spec fn opt_permission(p: Option<Permission>) -> Option<Seq<char>> {
    match p {
        Some(p) => Some(permission_name(p)),
        None => None,
    }
}

/// The wire name of an optional test format.
pub open spec fn opt_format(f: Option<TestFormat>) -> Option<Seq<char>> {
    match f {
        Some(f) => Some(format_name(f)),
        None => None,
    }
}

/// The wire name of an optional severity.
pub open spec fn opt_severity(s: Option<Severity>) -> Option<Seq<char>> {
    match s {
        Some(s) => Some(severity_name(s)),
        None => None,
    }
}

/// The fields of the event that opens a tab.
pub open spec fn start_tab_fields(
    title: Seq<char>,
    hidden: Option<bool>,
    permission: Option<Permission>,
) -> Seq<char> {
    field("title"@, json_string(title)) + optional_bool("hidden"@, hidden) + optional_string(
        "permission"@,
        opt_permission(permission),
    )
}

/// The fields of the event that opens a test.
pub open spec fn start_test_fields(
    expected: Seq<char>,
    format: Option<TestFormat>,
    description: Option<MessageView>,
    channel: Option<Seq<char>>,
) -> Seq<char> {
    field("expected"@, json_string(expected)) + optional_string("format"@, opt_format(format))
        + optional_message("description"@, description) + optional_string("channel"@, channel)
}

/// The fields of the event that annotates the submitted code.
pub open spec fn annotate_code_fields(
    row: u16,
    column: Option<u16>,
    text: Seq<char>,
    external_url: Option<Seq<char>>,
    type_: Option<Severity>,
    rows: Option<u16>,
    columns: Option<u16>,
) -> Seq<char> {
    field("row"@, decimal(row as nat)) + optional_number("column"@, column) + field(
        "text"@,
        json_string(text),
    ) + optional_string("externalUrl"@, external_url) + optional_string(
        "type"@,
        opt_severity(type_),
    ) + optional_number("rows"@, rows) + optional_number("columns"@, columns)
}

/// The fields of the event that closes a test.
pub open spec fn close_test_fields(
    generated: Seq<char>,
    accepted: Option<bool>,
    status: StatusView,
) -> Seq<char> {
    field("generated"@, json_string(generated)) + optional_bool("accepted"@, accepted) + field(
        "status"@,
        encode_status(status),
    )
}

/// The fields of the event that closes a judgement.
pub open spec fn close_judgement_fields(accepted: Option<bool>, status: Option<StatusView>) -> Seq<
    char,
> {
    optional_bool("accepted"@, accepted) + optional_status("status"@, status)
}

/// The fields of an event after `command`, in their order on the wire.
#[verifier::opaque]
pub open spec fn fields(c: CommandView) -> Seq<char> {
    match c {
        CommandView::StartJudgement => Seq::empty(),
        CommandView::StartTab { title, hidden, permission } => start_tab_fields(
            title,
            hidden,
            permission,
        ),
        CommandView::StartContext { description } => optional_message("description"@, description),
        CommandView::StartTestcase { description } => field(
            "description"@,
            encode_message(description),
        ),
        CommandView::StartTest { expected, format, description, channel } => start_test_fields(
            expected,
            format,
            description,
            channel,
        ),
        CommandView::AppendMessage { message } => field("message"@, encode_message(message)),
        CommandView::AnnotateCode {
            row,
            column,
            text,
            external_url,
            type_,
            rows,
            columns,
        } => annotate_code_fields(row, column, text, external_url, type_, rows, columns),
        CommandView::EscalateStatus { status } => field("status"@, encode_status(status)),
        CommandView::CloseTest { generated, accepted, status } => close_test_fields(
            generated,
            accepted,
            status,
        ),
        CommandView::CloseTestcase { accepted } => optional_bool("accepted"@, accepted),
        CommandView::CloseContext { accepted } => optional_bool("accepted"@, accepted),
        CommandView::CloseTab { badge_count } => optional_number("badgeCount"@, badge_count),
        CommandView::CloseJudgement { accepted, status } => close_judgement_fields(
            accepted,
            status,
        ),
    }
}

/// An event on the wire: a JSON object that starts with the event's name.
pub open spec fn encode_command(c: CommandView) -> Seq<char> {
    "{"@ + first_field("command"@, json_string(command_name(c))) + fields(c) + "}"@
}

/// A trace on the wire: each event on a line of its own, in order.
pub open spec fn encode_trace(trace: Seq<CommandView>) -> Seq<char>
    decreases trace.len(),
{
    if trace.len() == 0 {
        Seq::empty()
    } else {
        encode_command(trace[0]) + "\n"@ + encode_trace(trace.drop_first())
    }
}

/// The encoding of two pieces of trace one after the other is the
/// concatenation of their encodings.
pub proof fn lemma_encode_trace_concat(first: Seq<CommandView>, second: Seq<CommandView>)
    ensures
        encode_trace(first + second) == encode_trace(first) + encode_trace(second),
    decreases first.len(),
{
    if first.len() == 0 {
        assert(first + second =~= second);
        assert(encode_trace(first) + encode_trace(second) =~= encode_trace(second));
    } else {
        assert((first + second)[0] == first[0]);
        assert((first + second).drop_first() =~= first.drop_first() + second);
        lemma_encode_trace_concat(first.drop_first(), second);
        assert(encode_trace(first + second) =~= encode_trace(first) + encode_trace(second));
    }
}

/// Whether a text holds no line feed.
pub open spec fn on_one_line(s: Seq<char>) -> bool {
    forall|i: int| 0 <= i < s.len() ==> #[trigger] s[i] != '\n'
}

/// A JSON string holds no line feed, whatever the text.
pub proof fn lemma_json_string_on_one_line(s: Seq<char>)
    ensures
        on_one_line(escape(s)),
        on_one_line(json_string(s)),
    decreases s.len(),
{
    reveal_strlit("\"");
    if s.len() > 0 {
        reveal_strlit("\\\"");
        reveal_strlit("\\\\");
        reveal_strlit("\\b");
        reveal_strlit("\\t");
        reveal_strlit("\\n");
        reveal_strlit("\\f");
        reveal_strlit("\\r");
        reveal_strlit("\\u00");
        lemma_json_string_on_one_line(s.drop_first());
        assert(on_one_line(escaped(s[0])));
    }
}

/// A decimal numeral holds no line feed.
pub proof fn lemma_decimal_on_one_line(n: nat)
    ensures
        on_one_line(decimal(n)),
    decreases n,
{
    if n >= 10 {
        lemma_decimal_on_one_line(n / 10);
    }
}

/// The key of a field holds no line feed.
pub proof fn lemma_key_on_one_line(name: Seq<char>)
    ensures
        on_one_line(first_key(name)),
        on_one_line(key(name)),
{
    reveal_strlit(":");
    reveal_strlit(",");
    lemma_json_string_on_one_line(name);
}

/// A status on the wire holds no line feed.
pub proof fn lemma_status_on_one_line(status: StatusView)
    ensures
        on_one_line(encode_status(status)),
{
    reveal_strlit("{");
    reveal_strlit("}");
    lemma_key_on_one_line("enum"@);
    lemma_key_on_one_line("human"@);
    lemma_json_string_on_one_line(status_name(status.enum_));
    lemma_json_string_on_one_line(status.human);
}

/// A message on the wire holds no line feed.
pub proof fn lemma_message_on_one_line(message: MessageView)
    ensures
        on_one_line(encode_message(message)),
{
    match message {
        MessageView::String(text) => {
            lemma_json_string_on_one_line(text);
        },
        MessageView::Object { format, description, permission } => {
            reveal_strlit("{");
            reveal_strlit("}");
            lemma_key_on_one_line("format"@);
            lemma_key_on_one_line("description"@);
            lemma_key_on_one_line("permission"@);
            lemma_json_string_on_one_line(format);
            lemma_json_string_on_one_line(description);
            lemma_json_string_on_one_line(permission_name(permission));
        },
    }
}

/// A field holds no line feed where its value holds none.
pub proof fn lemma_field_on_one_line(name: Seq<char>, value: Seq<char>)
    requires
        on_one_line(value),
    ensures
        on_one_line(field(name, value)),
{
    lemma_key_on_one_line(name);
}

/// One event, one line: the wire form of an event holds no line feed, so
/// the line feeds of an encoded trace are those that end its lines.
pub proof fn lemma_encode_command_on_one_line(command: CommandView)
    ensures
        on_one_line(encode_command(command)),
{
    reveal(fields);
    reveal_strlit("{");
    reveal_strlit("}");
    reveal_strlit("true");
    reveal_strlit("false");
    lemma_key_on_one_line("command"@);
    lemma_json_string_on_one_line(command_name(command));
    assert(on_one_line(bool_text(true)) && on_one_line(bool_text(false)));
    assert(on_one_line(fields(command))) by {
        match command {
            CommandView::StartJudgement => {},
            CommandView::StartTab { title, hidden, permission } => {
                lemma_json_string_on_one_line(title);
                lemma_field_on_one_line("title"@, json_string(title));
                if let Some(b) = hidden {
                    lemma_field_on_one_line("hidden"@, bool_text(b));
                }
                if let Some(p) = permission {
                    lemma_json_string_on_one_line(permission_name(p));
                    lemma_field_on_one_line("permission"@, json_string(permission_name(p)));
                }
            },
            CommandView::StartContext { description } => {
                if let Some(m) = description {
                    lemma_message_on_one_line(m);
                    lemma_field_on_one_line("description"@, encode_message(m));
                }
            },
            CommandView::StartTestcase { description } => {
                lemma_message_on_one_line(description);
                lemma_field_on_one_line("description"@, encode_message(description));
            },
            CommandView::StartTest { expected, format, description, channel } => {
                lemma_json_string_on_one_line(expected);
                lemma_field_on_one_line("expected"@, json_string(expected));
                if let Some(f) = format {
                    lemma_json_string_on_one_line(format_name(f));
                    lemma_field_on_one_line("format"@, json_string(format_name(f)));
                }
                if let Some(m) = description {
                    lemma_message_on_one_line(m);
                    lemma_field_on_one_line("description"@, encode_message(m));
                }
                if let Some(c) = channel {
                    lemma_json_string_on_one_line(c);
                    lemma_field_on_one_line("channel"@, json_string(c));
                }
            },
            CommandView::AppendMessage { message } => {
                lemma_message_on_one_line(message);
                lemma_field_on_one_line("message"@, encode_message(message));
            },
            CommandView::AnnotateCode { row, column, text, external_url, type_, rows, columns } => {
                lemma_decimal_on_one_line(row as nat);
                lemma_field_on_one_line("row"@, decimal(row as nat));
                if let Some(n) = column {
                    lemma_decimal_on_one_line(n as nat);
                    lemma_field_on_one_line("column"@, decimal(n as nat));
                }
                lemma_json_string_on_one_line(text);
                lemma_field_on_one_line("text"@, json_string(text));
                if let Some(u) = external_url {
                    lemma_json_string_on_one_line(u);
                    lemma_field_on_one_line("externalUrl"@, json_string(u));
                }
                if let Some(v) = type_ {
                    lemma_json_string_on_one_line(severity_name(v));
                    lemma_field_on_one_line("type"@, json_string(severity_name(v)));
                }
                if let Some(n) = rows {
                    lemma_decimal_on_one_line(n as nat);
                    lemma_field_on_one_line("rows"@, decimal(n as nat));
                }
                if let Some(n) = columns {
                    lemma_decimal_on_one_line(n as nat);
                    lemma_field_on_one_line("columns"@, decimal(n as nat));
                }
            },
            CommandView::EscalateStatus { status } => {
                lemma_status_on_one_line(status);
                lemma_field_on_one_line("status"@, encode_status(status));
            },
            CommandView::CloseTest { generated, accepted, status } => {
                lemma_json_string_on_one_line(generated);
                lemma_field_on_one_line("generated"@, json_string(generated));
                if let Some(b) = accepted {
                    lemma_field_on_one_line("accepted"@, bool_text(b));
                }
                lemma_status_on_one_line(status);
                lemma_field_on_one_line("status"@, encode_status(status));
            },
            CommandView::CloseTestcase { accepted } => {
                if let Some(b) = accepted {
                    lemma_field_on_one_line("accepted"@, bool_text(b));
                }
            },
            CommandView::CloseContext { accepted } => {
                if let Some(b) = accepted {
                    lemma_field_on_one_line("accepted"@, bool_text(b));
                }
            },
            CommandView::CloseTab { badge_count } => {
                if let Some(n) = badge_count {
                    lemma_decimal_on_one_line(n as nat);
                    lemma_field_on_one_line("badgeCount"@, decimal(n as nat));
                }
            },
            CommandView::CloseJudgement { accepted, status } => {
                if let Some(b) = accepted {
                    lemma_field_on_one_line("accepted"@, bool_text(b));
                }
                if let Some(v) = status {
                    lemma_status_on_one_line(v);
                    lemma_field_on_one_line("status"@, encode_status(v));
                }
            },
        }
    }
}

fn put_string(text: &str, out: &mut String)
    ensures
        final(out)@ == old(out)@ + json_string(text@),
{
    match quote(text) {
        Ok(quoted) => {
            out.append(quoted.as_str());
        },
        Err(_) => {},
    }
}

fn put_first(name: &str, out: &mut String)
    ensures
        final(out)@ == old(out)@ + first_key(name@),
{
    put_string(name, out);
    out.append(":");
    assert(out@ =~= old(out)@ + first_key(name@));
}

fn put_key(name: &str, out: &mut String)
    ensures
        final(out)@ == old(out)@ + key(name@),
{
    out.append(",");
    put_first(name, out);
    assert(out@ =~= old(out)@ + key(name@));
}

fn put_first_string(name: &str, value: &str, out: &mut String)
    ensures
        final(out)@ == old(out)@ + first_field(name@, json_string(value@)),
{
    put_first(name, out);
    put_string(value, out);
    assert(out@ =~= old(out)@ + first_field(name@, json_string(value@)));
}

fn put_field_string(name: &str, value: &str, out: &mut String)
    ensures
        final(out)@ == old(out)@ + field(name@, json_string(value@)),
{
    put_key(name, out);
    put_string(value, out);
    assert(out@ =~= old(out)@ + field(name@, json_string(value@)));
}

fn put_bool(name: &str, value: &Option<bool>, out: &mut String)
    ensures
        final(out)@ == old(out)@ + optional_bool(name@, *value),
{
    match value {
        Some(b) => {
            put_key(name, out);
            if *b {
                out.append("true");
            } else {
                out.append("false");
            }
            assert(out@ =~= old(out)@ + optional_bool(name@, *value));
        },
        None => {
            assert(out@ =~= old(out)@ + optional_bool(name@, *value));
        },
    }
}

fn put_number(name: &str, value: &Option<u16>, out: &mut String)
    ensures
        final(out)@ == old(out)@ + optional_number(name@, *value),
{
    match value {
        Some(n) => {
            put_key(name, out);
            out.append(decimal_text(*n).as_str());
            assert(out@ =~= old(out)@ + optional_number(name@, *value));
        },
        None => {
            assert(out@ =~= old(out)@ + optional_number(name@, *value));
        },
    }
}

fn put_text(name: &str, value: &Option<String>, out: &mut String)
    ensures
        final(out)@ == old(out)@ + optional_string(name@, opt_text(*value)),
{
    match value {
        Some(s) => {
            put_key(name, out);
            put_string(s.as_str(), out);
            assert(out@ =~= old(out)@ + field(name@, json_string(s@)));
        },
        None => {
            assert(out@ =~= old(out)@ + Seq::<char>::empty());
        },
    }
}

fn permission_text(p: Permission) -> (r: &'static str)
    ensures
        r@ == permission_name(p),
{
    match p {
        Permission::Student => "student",
        Permission::Staff => "staff",
        Permission::Zeus => "zeus",
    }
}

fn format_text(f: TestFormat) -> (r: &'static str)
    ensures
        r@ == format_name(f),
{
    match f {
        TestFormat::Text => "text",
        TestFormat::CSV => "c-s-v",
    }
}

fn severity_text(s: Severity) -> (r: &'static str)
    ensures
        r@ == severity_name(s),
{
    match s {
        Severity::Error => "error",
        Severity::Warning => "warning",
        Severity::Info => "info",
    }
}

fn status_text(s: StatusEnum) -> (r: &'static str)
    ensures
        r@ == status_name(s),
{
    match s {
        StatusEnum::InternalError => "internal-error",
        StatusEnum::CompilationError => "compilation-error",
        StatusEnum::MemoryLimitExceeded => "memory-limit-exceeded",
        StatusEnum::TimeLimitExceeded => "time-limit-exceeded",
        StatusEnum::OutputLimitExceeded => "output-limit-exceeded",
        StatusEnum::RuntimeError => "runtime-error",
        StatusEnum::Wrong => "wrong",
        StatusEnum::Correct => "correct",
    }
}

fn command_text(c: &Command) -> (r: &'static str)
    ensures
        r@ == command_name(c@),
{
    match c {
        Command::StartJudgement => "start-judgement",
        Command::StartTab { .. } => "start-tab",
        Command::StartContext { .. } => "start-context",
        Command::StartTestcase { .. } => "start-testcase",
        Command::StartTest { .. } => "start-test",
        Command::AppendMessage { .. } => "append-message",
        Command::AnnotateCode { .. } => "annotate-code",
        Command::EscalateStatus { .. } => "escalate-status",
        Command::CloseTest { .. } => "close-test",
        Command::CloseTestcase { .. } => "close-testcase",
        Command::CloseContext { .. } => "close-context",
        Command::CloseTab { .. } => "close-tab",
        Command::CloseJudgement { .. } => "close-judgement",
    }
}

fn put_message(message: &Message, out: &mut String)
    ensures
        final(out)@ == old(out)@ + encode_message(message@),
{
    match message {
        Message::String(s) => {
            put_string(s.as_str(), out);
        },
        Message::Object { format, description, permission } => {
            out.append("{");
            put_first_string("format", format.as_str(), out);
            put_field_string("description", description.as_str(), out);
            put_field_string("permission", permission_text(*permission), out);
            out.append("}");
            assert(out@ =~= old(out)@ + encode_message(message@));
        },
    }
}

fn put_optional_message(name: &str, value: &Option<Message>, out: &mut String)
    ensures
        final(out)@ == old(out)@ + optional_message(name@, opt_message(*value)),
{
    match value {
        Some(m) => {
            put_key(name, out);
            put_message(m, out);
            assert(out@ =~= old(out)@ + field(name@, encode_message(m@)));
        },
        None => {
            assert(out@ =~= old(out)@ + Seq::<char>::empty());
        },
    }
}

fn put_status(status: &Status, out: &mut String)
    ensures
        final(out)@ == old(out)@ + encode_status(status@),
{
    out.append("{");
    put_first_string("enum", status_text(status.enum_), out);
    put_field_string("human", status.human.as_str(), out);
    out.append("}");
    assert(out@ =~= old(out)@ + encode_status(status@));
}

fn put_name(name: &str, value: Option<&str>, out: &mut String)
    ensures
        final(out)@ == old(out)@ + optional_string(
            name@,
            match value {
                Some(v) => Some(v@),
                None => None,
            },
        ),
{
    match value {
        Some(v) => {
            put_key(name, out);
            put_string(v, out);
            assert(out@ =~= old(out)@ + field(name@, json_string(v@)));
        },
        None => {
            assert(out@ =~= old(out)@ + Seq::<char>::empty());
        },
    }
}

fn put_field_message(name: &str, value: &Message, out: &mut String)
    ensures
        final(out)@ == old(out)@ + field(name@, encode_message(value@)),
{
    put_key(name, out);
    put_message(value, out);
    assert(out@ =~= old(out)@ + field(name@, encode_message(value@)));
}

fn put_field_status(name: &str, value: &Status, out: &mut String)
    ensures
        final(out)@ == old(out)@ + field(name@, encode_status(value@)),
{
    put_key(name, out);
    put_status(value, out);
    assert(out@ =~= old(out)@ + field(name@, encode_status(value@)));
}

fn put_field_number(name: &str, value: u16, out: &mut String)
    ensures
        final(out)@ == old(out)@ + field(name@, decimal(value as nat)),
{
    put_key(name, out);
    out.append(decimal_text(value).as_str());
    assert(out@ =~= old(out)@ + field(name@, decimal(value as nat)));
}

fn put_start_tab(
    title: &String,
    hidden: &Option<bool>,
    permission: &Option<Permission>,
    out: &mut String,
)
    ensures
        final(out)@ == old(out)@ + start_tab_fields(title@, *hidden, *permission),
{
    put_field_string("title", title.as_str(), out);
    put_bool("hidden", hidden, out);
    let permission_name = match permission {
        Some(p) => Some(permission_text(*p)),
        None => None,
    };
    put_name("permission", permission_name, out);
    assert(out@ =~= old(out)@ + start_tab_fields(title@, *hidden, *permission));
}

fn put_start_test(
    expected: &String,
    format: &Option<TestFormat>,
    description: &Option<Message>,
    channel: &Option<String>,
    out: &mut String,
)
    ensures
        final(out)@ == old(out)@ + start_test_fields(
            expected@,
            *format,
            opt_message(*description),
            opt_text(*channel),
        ),
{
    put_field_string("expected", expected.as_str(), out);
    let format_name = match format {
        Some(f) => Some(format_text(*f)),
        None => None,
    };
    put_name("format", format_name, out);
    put_optional_message("description", description, out);
    put_text("channel", channel, out);
    assert(out@ =~= old(out)@ + start_test_fields(
        expected@,
        *format,
        opt_message(*description),
        opt_text(*channel),
    ));
}

fn put_annotate_code(
    row: u16,
    column: &Option<u16>,
    text: &String,
    external_url: &Option<String>,
    type_: &Option<Severity>,
    rows: &Option<u16>,
    columns: &Option<u16>,
    out: &mut String,
)
    ensures
        final(out)@ == old(out)@ + annotate_code_fields(
            row,
            *column,
            text@,
            opt_text(*external_url),
            *type_,
            *rows,
            *columns,
        ),
{
    put_field_number("row", row, out);
    put_number("column", column, out);
    put_field_string("text", text.as_str(), out);
    put_text("externalUrl", external_url, out);
    let severity = match type_ {
        Some(s) => Some(severity_text(*s)),
        None => None,
    };
    put_name("type", severity, out);
    put_number("rows", rows, out);
    put_number("columns", columns, out);
    assert(out@ =~= old(out)@ + annotate_code_fields(
        row,
        *column,
        text@,
        opt_text(*external_url),
        *type_,
        *rows,
        *columns,
    ));
}

fn put_close_test(generated: &String, accepted: &Option<bool>, status: &Status, out: &mut String)
    ensures
        final(out)@ == old(out)@ + close_test_fields(generated@, *accepted, status@),
{
    put_field_string("generated", generated.as_str(), out);
    put_bool("accepted", accepted, out);
    put_field_status("status", status, out);
    assert(out@ =~= old(out)@ + close_test_fields(generated@, *accepted, status@));
}

fn put_close_judgement(accepted: &Option<bool>, status: &Option<Status>, out: &mut String)
    ensures
        final(out)@ == old(out)@ + close_judgement_fields(
            *accepted,
            opt_status(*status),
        ),
{
    put_bool("accepted", accepted, out);
    match status {
        Some(s) => {
            put_field_status("status", s, out);
        },
        None => {},
    }
    assert(out@ =~= old(out)@ + close_judgement_fields(
        *accepted,
        opt_status(*status),
    ));
}

fn put_fields(command: &Command, out: &mut String)
    ensures
        final(out)@ == old(out)@ + fields(command@),
{
    reveal(fields);
    match command {
        Command::StartJudgement => {
            assert(out@ =~= old(out)@ + Seq::<char>::empty());
        },
        Command::StartTab { title, hidden, permission } => {
            put_start_tab(title, hidden, permission, out);
        },
        Command::StartContext { description } => {
            put_optional_message("description", description, out);
        },
        Command::StartTestcase { description } => {
            put_field_message("description", description, out);
        },
        Command::StartTest { expected, format, description, channel } => {
            put_start_test(expected, format, description, channel, out);
        },
        Command::AppendMessage { message } => {
            put_field_message("message", message, out);
        },
        Command::AnnotateCode { row, column, text, external_url, type_, rows, columns } => {
            put_annotate_code(*row, column, text, external_url, type_, rows, columns, out);
        },
        Command::EscalateStatus { status } => {
            put_field_status("status", status, out);
        },
        Command::CloseTest { generated, accepted, status } => {
            put_close_test(generated, accepted, status, out);
        },
        Command::CloseTestcase { accepted } => {
            put_bool("accepted", accepted, out);
        },
        Command::CloseContext { accepted } => {
            put_bool("accepted", accepted, out);
        },
        Command::CloseTab { badge_count } => {
            put_number("badgeCount", badge_count, out);
        },
        Command::CloseJudgement { accepted, status } => {
            put_close_judgement(accepted, status, out);
        },
    }
}

/// Appends the wire form of one event to `out`.
pub fn put_command(command: &Command, out: &mut String)
    ensures
        final(out)@ == old(out)@ + encode_command(command@),
{
    out.append("{");
    put_first_string("command", command_text(command), out);
    put_fields(command, out);
    out.append("}");
    assert(out@ =~= old(out)@ + encode_command(command@));
}

/// The wire form of one event: a JSON object on one line, without the line
/// feed that ends the line. The decoder reads it back as the same event.
pub fn encode(command: &Command) -> (r: String)
    ensures
        r@ == encode_command(command@),
        on_one_line(r@),
        decoded(r@) == Some(command@),
{
    proof {
        lemma_encode_command_on_one_line(command@);
        lemma_round_trip(command@);
    }
    let mut out = String::new();
    put_command(command, &mut out);
    assert(out@ =~= encode_command(command@));
    out
}

/// The wire form of a trace: each event on a line of its own, every line
/// ended by a line feed. The decoder reads it back as the same trace.
pub fn encode_all(trace: &Vec<Command>) -> (r: String)
    ensures
        r@ == encode_trace(events(trace@)),
        decode_trace(r@, 0) == Some(events(trace@)),
{
    proof {
        lemma_trace_round_trip(events(trace@));
    }
    let ghost all = events(trace@);
    let mut out = String::new();
    let mut i: usize = 0;
    assert(out@ =~= encode_trace(all.take(0)));
    while i < trace.len()
        invariant
            i <= trace.len(),
            all == events(trace@),
            out@ == encode_trace(all.take(i as int)),
        decreases trace.len() - i,
    {
        let ghost before = out@;
        put_command(&trace[i], &mut out);
        out.append("\n");
        proof {
            let one = seq![all[i as int]];
            assert(one.drop_first() =~= Seq::<CommandView>::empty());
            assert(encode_trace(one.drop_first()) =~= Seq::<char>::empty());
            assert(encode_trace(one) =~= encode_command(all[i as int]) + "\n"@);
            assert(all.take(i + 1) =~= all.take(i as int) + one);
            lemma_encode_trace_concat(all.take(i as int), one);
            assert(out@ =~= before + (encode_command(all[i as int]) + "\n"@));
        }
        i += 1;
    }
    assert(all.take(i as int) =~= all);
    out
}

} // verus!
