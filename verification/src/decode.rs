//! Reading the wire encoding back: the decoder of events and traces.
//!
//! Every decoder reads at a position of a text and gives the value it read
//! with the position after it. A position below zero stands for failure, and
//! a decoder that is handed one fails in turn.

use vstd::prelude::*;
use crate::grammar::{
    CharClass, chars_of, in_class, lemma_run_spans, numeral, read_numeral, run, skip_run,
};
use crate::protocol::{
    Command, CommandView, events, Message, MessageView, opt_message, opt_status, opt_text,
    Permission, Severity, Status, StatusEnum, StatusView, TestFormat,
};

verus! {

/// Whether the character `c` stands at position `at` of `s`.
pub open spec fn is_at(s: Seq<char>, at: int, c: char) -> bool {
    0 <= at < s.len() && s[at] == c
}

/// The position after the character `c` at `at`, if it stands there.
pub open spec fn pass(s: Seq<char>, at: int, c: char) -> int {
    if is_at(s, at, c) {
        at + 1
    } else {
        -1
    }
}

/// The value of a lower-case hexadecimal digit.
pub open spec fn hex_value(c: char) -> Option<nat> {
    let u = c as u32;
    if '0' as u32 <= u <= '9' as u32 {
        Some((u - '0' as u32) as nat)
    } else if 'a' as u32 <= u <= 'f' as u32 {
        Some((u - 'a' as u32 + 10) as nat)
    } else {
        None
    }
}

/// The character with the code `u`, for a code below 256.
pub open spec fn coded(u: nat) -> char {
    (u as u8) as char
}

/// The character that an escape letter stands for.
pub open spec fn short_escape(letter: char) -> Option<char> {
    if letter == '"' {
        Some('"')
    } else if letter == '\\' {
        Some('\\')
    } else if letter == 'b' {
        Some(coded(0x08))
    } else if letter == 't' {
        Some(coded(0x09))
    } else if letter == 'n' {
        Some(coded(0x0A))
    } else if letter == 'f' {
        Some(coded(0x0C))
    } else if letter == 'r' {
        Some(coded(0x0D))
    } else {
        None
    }
}

/// Reads one character of a JSON string: a plain character, or an escape: a
/// backslash before a quote, a backslash or one of the letters `b`, `t`, `n`,
/// `f`, `r`, or `\u00` before two hexadecimal digits that give a code below
/// U+0020. It fails at a quote, at a control character and at any other
/// escape.
pub open spec fn decode_char(s: Seq<char>, at: int) -> (char, int) {
    if !(0 <= at < s.len()) {
        (' ', -1)
    } else if s[at] != '\\' {
        if (s[at] as u32) < 0x20 || s[at] == '"' {
            (' ', -1)
        } else {
            (s[at], at + 1)
        }
    } else if at + 1 >= s.len() {
        (' ', -1)
    } else if short_escape(s[at + 1]) is Some {
        (short_escape(s[at + 1])->0, at + 2)
    } else if s[at + 1] == 'u' && at + 6 <= s.len() && s[at + 2] == '0' && s[at + 3] == '0'
        && hex_value(s[at + 4]) is Some && hex_value(s[at + 5]) is Some && hex_value(s[at + 4])->0
        < 2 {
        (coded(hex_value(s[at + 4])->0 * 16 + hex_value(s[at + 5])->0), at + 6)
    } else {
        (' ', -1)
    }
}

/// Reads the characters of a JSON string up to its closing quote, and gives
/// the position after that quote.
pub open spec fn decode_chars(s: Seq<char>, at: int) -> (Seq<char>, int)
    decreases s.len() - at,
{
    if !(0 <= at < s.len()) {
        (Seq::empty(), -1)
    } else if s[at] == '"' {
        (Seq::empty(), at + 1)
    } else {
        let (c, next) = decode_char(s, at);
        if next <= at {
            (Seq::empty(), -1)
        } else {
            let (rest, end) = decode_chars(s, next);
            if end < 0 {
                (Seq::empty(), -1)
            } else {
                (seq![c] + rest, end)
            }
        }
    }
}

/// Reads a JSON string.
pub open spec fn decode_string(s: Seq<char>, at: int) -> (Seq<char>, int) {
    decode_chars(s, pass(s, at, '"'))
}

/// Reads a decimal number up to 65535.
pub open spec fn decode_number(s: Seq<char>, at: int) -> (u16, int) {
    if 0 <= at <= s.len() {
        let n = run(s.skip(at), CharClass::Digit, true) as int;
        let value = numeral(s.subrange(at, at + n));
        if n == 0 || value > 65535 {
            (0, -1)
        } else {
            (value as u16, at + n)
        }
    } else {
        (0, -1)
    }
}

/// Reads `true` or `false`.
pub open spec fn decode_bool(s: Seq<char>, at: int) -> (bool, int) {
    if is_at(s, at, 't') && is_at(s, at + 1, 'r') && is_at(s, at + 2, 'u') && is_at(
        s,
        at + 3,
        'e',
    ) {
        (true, at + 4)
    } else if is_at(s, at, 'f') && is_at(s, at + 1, 'a') && is_at(s, at + 2, 'l') && is_at(
        s,
        at + 3,
        's',
    ) && is_at(s, at + 4, 'e') {
        (false, at + 5)
    } else {
        (false, -1)
    }
}

/// Reads what introduces the first field of an object: its name and a
/// colon. Gives the name and the position of the value.
pub open spec fn decode_first_key(s: Seq<char>, at: int) -> (Seq<char>, int) {
    let (name, next) = decode_string(s, at);
    (name, pass(s, next, ':'))
}

/// Reads what introduces a later field of an object: a comma, its name and a
/// colon. Gives the name and the position of the value.
pub open spec fn decode_key(s: Seq<char>, at: int) -> (Seq<char>, int) {
    decode_first_key(s, pass(s, at, ','))
}

/// The position of the value of the field `name`, if that field stands at
/// `at` as a later field of an object.
pub open spec fn expect_key(s: Seq<char>, at: int, name: Seq<char>) -> int {
    let (found, value_at) = decode_key(s, at);
    if value_at >= 0 && found == name {
        value_at
    } else {
        -1
    }
}

/// The position of the value of the field `name`, if an object that starts
/// with that field stands at `at`.
pub open spec fn expect_first_key(s: Seq<char>, at: int, name: Seq<char>) -> int {
    let (found, value_at) = decode_first_key(s, pass(s, at, '{'));
    if value_at >= 0 && found == name {
        value_at
    } else {
        -1
    }
}

/// The permission with a wire name.
pub open spec fn permission_named(name: Seq<char>) -> Option<Permission> {
    if name == "student"@ {
        Some(Permission::Student)
    } else if name == "staff"@ {
        Some(Permission::Staff)
    } else if name == "zeus"@ {
        Some(Permission::Zeus)
    } else {
        None
    }
}

/// The test format with a wire name.
pub open spec fn format_named(name: Seq<char>) -> Option<TestFormat> {
    if name == "text"@ {
        Some(TestFormat::Text)
    } else if name == "c-s-v"@ {
        Some(TestFormat::CSV)
    } else {
        None
    }
}

/// The severity with a wire name.
pub open spec fn severity_named(name: Seq<char>) -> Option<Severity> {
    if name == "error"@ {
        Some(Severity::Error)
    } else if name == "warning"@ {
        Some(Severity::Warning)
    } else if name == "info"@ {
        Some(Severity::Info)
    } else {
        None
    }
}

/// The verdict with a wire name. `wrong answer` and `correct answer` are
/// read as `wrong` and `correct`.
pub open spec fn status_named(name: Seq<char>) -> Option<StatusEnum> {
    if name == "internal-error"@ {
        Some(StatusEnum::InternalError)
    } else if name == "compilation-error"@ {
        Some(StatusEnum::CompilationError)
    } else if name == "memory-limit-exceeded"@ {
        Some(StatusEnum::MemoryLimitExceeded)
    } else if name == "time-limit-exceeded"@ {
        Some(StatusEnum::TimeLimitExceeded)
    } else if name == "output-limit-exceeded"@ {
        Some(StatusEnum::OutputLimitExceeded)
    } else if name == "runtime-error"@ {
        Some(StatusEnum::RuntimeError)
    } else if name == "wrong"@ || name == "wrong answer"@ {
        Some(StatusEnum::Wrong)
    } else if name == "correct"@ || name == "correct answer"@ {
        Some(StatusEnum::Correct)
    } else {
        None
    }
}

/// Reads a permission by its wire name.
pub open spec fn decode_permission(s: Seq<char>, at: int) -> (Permission, int) {
    let (name, next) = decode_string(s, at);
    match permission_named(name) {
        Some(p) => (p, next),
        None => (Permission::Student, -1),
    }
}

/// Reads a test format by its wire name.
pub open spec fn decode_format(s: Seq<char>, at: int) -> (TestFormat, int) {
    let (name, next) = decode_string(s, at);
    match format_named(name) {
        Some(f) => (f, next),
        None => (TestFormat::Text, -1),
    }
}

/// Reads a severity by its wire name.
pub open spec fn decode_severity(s: Seq<char>, at: int) -> (Severity, int) {
    let (name, next) = decode_string(s, at);
    match severity_named(name) {
        Some(v) => (v, next),
        None => (Severity::Error, -1),
    }
}

/// Reads a verdict by its wire name.
pub open spec fn decode_status_name(s: Seq<char>, at: int) -> (StatusEnum, int) {
    let (name, next) = decode_string(s, at);
    match status_named(name) {
        Some(v) => (v, next),
        None => (StatusEnum::InternalError, -1),
    }
}

/// Reads a message: a JSON string, or an object of the fields `format`,
/// `description` and `permission`.
pub open spec fn decode_message(s: Seq<char>, at: int) -> (MessageView, int) {
    if is_at(s, at, '"') {
        let (text, next) = decode_string(s, at);
        (MessageView::String(text), next)
    } else {
        let (format, at1) = decode_string(s, expect_first_key(s, at, "format"@));
        let (description, at2) = decode_string(s, expect_key(s, at1, "description"@));
        let (permission, at3) = decode_permission(s, expect_key(s, at2, "permission"@));
        (MessageView::Object { format, description, permission }, pass(s, at3, '}'))
    }
}

/// Reads a status: an object of the fields `enum` and `human`.
pub open spec fn decode_status(s: Seq<char>, at: int) -> (StatusView, int) {
    let (enum_, at1) = decode_status_name(s, expect_first_key(s, at, "enum"@));
    let (human, at2) = decode_string(s, expect_key(s, at1, "human"@));
    (StatusView { enum_, human }, pass(s, at2, '}'))
}

/// Reads a field that may be left out and holds a truth value.
pub open spec fn decode_optional_bool(s: Seq<char>, at: int, name: Seq<char>) -> (
    Option<bool>,
    int,
) {
    let value_at = expect_key(s, at, name);
    if at < 0 {
        (None, -1)
    } else if value_at < 0 {
        (None, at)
    } else {
        (Some(decode_bool(s, value_at).0), decode_bool(s, value_at).1)
    }
}

/// Reads a field that may be left out and holds a number.
pub open spec fn decode_optional_number(s: Seq<char>, at: int, name: Seq<char>) -> (
    Option<u16>,
    int,
) {
    let value_at = expect_key(s, at, name);
    if at < 0 {
        (None, -1)
    } else if value_at < 0 {
        (None, at)
    } else {
        (Some(decode_number(s, value_at).0), decode_number(s, value_at).1)
    }
}

/// Reads a field that may be left out and holds a text.
pub open spec fn decode_optional_string(s: Seq<char>, at: int, name: Seq<char>) -> (
    Option<Seq<char>>,
    int,
) {
    let value_at = expect_key(s, at, name);
    if at < 0 {
        (None, -1)
    } else if value_at < 0 {
        (None, at)
    } else {
        (Some(decode_string(s, value_at).0), decode_string(s, value_at).1)
    }
}

/// Reads a field that may be left out and holds a message.
pub open spec fn decode_optional_message(s: Seq<char>, at: int, name: Seq<char>) -> (
    Option<MessageView>,
    int,
) {
    let value_at = expect_key(s, at, name);
    if at < 0 {
        (None, -1)
    } else if value_at < 0 {
        (None, at)
    } else {
        (Some(decode_message(s, value_at).0), decode_message(s, value_at).1)
    }
}

/// Reads a field that may be left out and holds a status.
pub open spec fn decode_optional_status(s: Seq<char>, at: int, name: Seq<char>) -> (
    Option<StatusView>,
    int,
) {
    let value_at = expect_key(s, at, name);
    if at < 0 {
        (None, -1)
    } else if value_at < 0 {
        (None, at)
    } else {
        (Some(decode_status(s, value_at).0), decode_status(s, value_at).1)
    }
}

/// Reads a field that may be left out and holds a permission.
pub open spec fn decode_optional_permission(s: Seq<char>, at: int, name: Seq<char>) -> (
    Option<Permission>,
    int,
) {
    let value_at = expect_key(s, at, name);
    if at < 0 {
        (None, -1)
    } else if value_at < 0 {
        (None, at)
    } else {
        (Some(decode_permission(s, value_at).0), decode_permission(s, value_at).1)
    }
}

/// Reads a field that may be left out and holds a test format.
pub open spec fn decode_optional_format(s: Seq<char>, at: int, name: Seq<char>) -> (
    Option<TestFormat>,
    int,
) {
    let value_at = expect_key(s, at, name);
    if at < 0 {
        (None, -1)
    } else if value_at < 0 {
        (None, at)
    } else {
        (Some(decode_format(s, value_at).0), decode_format(s, value_at).1)
    }
}

/// Reads a field that may be left out and holds a severity.
pub open spec fn decode_optional_severity(s: Seq<char>, at: int, name: Seq<char>) -> (
    Option<Severity>,
    int,
) {
    let value_at = expect_key(s, at, name);
    if at < 0 {
        (None, -1)
    } else if value_at < 0 {
        (None, at)
    } else {
        (Some(decode_severity(s, value_at).0), decode_severity(s, value_at).1)
    }
}

/// Reads the fields of the event that opens a tab.
pub open spec fn decode_start_tab(s: Seq<char>, at: int) -> (CommandView, int) {
    let (title, at1) = decode_string(s, expect_key(s, at, "title"@));
    let (hidden, at2) = decode_optional_bool(s, at1, "hidden"@);
    let (permission, at3) = decode_optional_permission(s, at2, "permission"@);
    (CommandView::StartTab { title, hidden, permission }, at3)
}

/// Reads the fields of the event that opens a test.
pub open spec fn decode_start_test(s: Seq<char>, at: int) -> (CommandView, int) {
    let (expected, at1) = decode_string(s, expect_key(s, at, "expected"@));
    let (format, at2) = decode_optional_format(s, at1, "format"@);
    let (description, at3) = decode_optional_message(s, at2, "description"@);
    let (channel, at4) = decode_optional_string(s, at3, "channel"@);
    (CommandView::StartTest { expected, format, description, channel }, at4)
}

/// Reads the fields of the event that annotates the submitted code.
pub open spec fn decode_annotate_code(s: Seq<char>, at: int) -> (CommandView, int) {
    let (row, at1) = decode_number(s, expect_key(s, at, "row"@));
    let (column, at2) = decode_optional_number(s, at1, "column"@);
    let (text, at3) = decode_string(s, expect_key(s, at2, "text"@));
    let (external_url, at4) = decode_optional_string(s, at3, "externalUrl"@);
    let (type_, at5) = decode_optional_severity(s, at4, "type"@);
    let (rows, at6) = decode_optional_number(s, at5, "rows"@);
    let (columns, at7) = decode_optional_number(s, at6, "columns"@);
    (CommandView::AnnotateCode { row, column, text, external_url, type_, rows, columns }, at7)
}

/// Reads the fields of the event that closes a test.
pub open spec fn decode_close_test(s: Seq<char>, at: int) -> (CommandView, int) {
    let (generated, at1) = decode_string(s, expect_key(s, at, "generated"@));
    let (accepted, at2) = decode_optional_bool(s, at1, "accepted"@);
    let (status, at3) = decode_status(s, expect_key(s, at2, "status"@));
    (CommandView::CloseTest { generated, accepted, status }, at3)
}

/// Reads the fields of the event that closes a judgement.
pub open spec fn decode_close_judgement(s: Seq<char>, at: int) -> (CommandView, int) {
    let (accepted, at1) = decode_optional_bool(s, at, "accepted"@);
    let (status, at2) = decode_optional_status(s, at1, "status"@);
    (CommandView::CloseJudgement { accepted, status }, at2)
}

/// Reads the fields of the event called `name`, from the position after the
/// field `command` on.
#[verifier::opaque]
pub open spec fn decode_fields(s: Seq<char>, at: int, name: Seq<char>) -> (CommandView, int) {
    if name == "start-judgement"@ {
        (CommandView::StartJudgement, at)
    } else if name == "start-tab"@ {
        decode_start_tab(s, at)
    } else if name == "start-context"@ {
        let (description, at1) = decode_optional_message(s, at, "description"@);
        (CommandView::StartContext { description }, at1)
    } else if name == "start-testcase"@ {
        let (description, at1) = decode_message(s, expect_key(s, at, "description"@));
        (CommandView::StartTestcase { description }, at1)
    } else if name == "start-test"@ {
        decode_start_test(s, at)
    } else if name == "append-message"@ {
        let (message, at1) = decode_message(s, expect_key(s, at, "message"@));
        (CommandView::AppendMessage { message }, at1)
    } else if name == "annotate-code"@ {
        decode_annotate_code(s, at)
    } else if name == "escalate-status"@ {
        let (status, at1) = decode_status(s, expect_key(s, at, "status"@));
        (CommandView::EscalateStatus { status }, at1)
    } else if name == "close-test"@ {
        decode_close_test(s, at)
    } else if name == "close-testcase"@ {
        let (accepted, at1) = decode_optional_bool(s, at, "accepted"@);
        (CommandView::CloseTestcase { accepted }, at1)
    } else if name == "close-context"@ {
        let (accepted, at1) = decode_optional_bool(s, at, "accepted"@);
        (CommandView::CloseContext { accepted }, at1)
    } else if name == "close-tab"@ {
        let (badge_count, at1) = decode_optional_number(s, at, "badgeCount"@);
        (CommandView::CloseTab { badge_count }, at1)
    } else if name == "close-judgement"@ {
        decode_close_judgement(s, at)
    } else {
        (CommandView::StartJudgement, -1)
    }
}

/// Reads an event: an object that starts with the field `command`, holds the
/// fields of the event so named in their order, and nothing else.
pub open spec fn decode_command(s: Seq<char>, at: int) -> (CommandView, int) {
    let (name, at1) = decode_string(s, expect_first_key(s, at, "command"@));
    let (command, at2) = decode_fields(s, at1, name);
    (command, pass(s, at2, '}'))
}

/// Reads a trace: events, each followed by a line feed, up to the end of the
/// text.
pub open spec fn decode_trace(s: Seq<char>, at: int) -> Option<Seq<CommandView>>
    decreases s.len() - at,
{
    if at < 0 || at > s.len() {
        None
    } else if at == s.len() {
        Some(Seq::empty())
    } else {
        let (command, end) = decode_command(s, at);
        let next = pass(s, end, '\n');
        if next <= at {
            None
        } else {
            match decode_trace(s, next) {
                Some(rest) => Some(seq![command] + rest),
                None => None,
            }
        }
    }
}

/// The event that a text is read as, where the decoder reads one event and
/// the event fills the whole text.
pub open spec fn decoded(s: Seq<char>) -> Option<CommandView> {
    let (command, end) = decode_command(s, 0);
    if end == s.len() {
        Some(command)
    } else {
        None
    }
}

/// Whether `c` stands at `at`.
fn stands_at(chars: &Vec<char>, at: usize, c: char) -> (r: bool)
    ensures
        r == is_at(chars@, at as int, c),
        r ==> at < chars.len(),
{
    at < chars.len() && chars[at] == c
}

/// The value of a lower-case hexadecimal digit.
fn hex_of(c: char) -> (r: Option<u32>)
    ensures
        match r {
            Some(v) => hex_value(c) == Some(v as nat),
            None => hex_value(c) is None,
        },
{
    let u = c as u32;
    if '0' as u32 <= u && u <= '9' as u32 {
        Some(u - '0' as u32)
    } else if 'a' as u32 <= u && u <= 'f' as u32 {
        Some(u - 'a' as u32 + 10)
    } else {
        None
    }
}

/// The character that an escape letter stands for.
fn short_escape_of(letter: char) -> (r: Option<char>)
    ensures
        r == short_escape(letter),
{
    if letter == '"' {
        Some('"')
    } else if letter == '\\' {
        Some('\\')
    } else if letter == 'b' {
        Some(0x08u8 as char)
    } else if letter == 't' {
        Some(0x09u8 as char)
    } else if letter == 'n' {
        Some(0x0Au8 as char)
    } else if letter == 'f' {
        Some(0x0Cu8 as char)
    } else if letter == 'r' {
        Some(0x0Du8 as char)
    } else {
        None
    }
}

/// Reads one character of a JSON string.
fn read_char(chars: &Vec<char>, at: usize) -> (r: Option<(char, usize)>)
    ensures
        match r {
            Some((c, next)) => decode_char(chars@, at as int) == (c, next as int) && at < next
                <= chars.len(),
            None => decode_char(chars@, at as int).1 < 0,
        },
{
    let len = chars.len();
    if at >= len {
        return None;
    }
    let c = chars[at];
    if c != '\\' {
        if (c as u32) < 0x20 || c == '"' {
            return None;
        }
        return Some((c, at + 1));
    }
    if len - at < 2 {
        return None;
    }
    if let Some(plain) = short_escape_of(chars[at + 1]) {
        return Some((plain, at + 2));
    }
    if chars[at + 1] != 'u' || len - at < 6 || chars[at + 2] != '0' || chars[at + 3] != '0' {
        return None;
    }
    match (hex_of(chars[at + 4]), hex_of(chars[at + 5])) {
        (Some(high), Some(low)) => {
            if high < 2 {
                let code: u8 = (high * 16 + low) as u8;
                Some((code as char, at + 6))
            } else {
                None
            }
        },
        _ => None,
    }
}

/// Reads a JSON string.
fn read_string(chars: &Vec<char>, at: usize) -> (r: Option<(String, usize)>)
    ensures
        match r {
            Some((text, next)) => decode_string(chars@, at as int) == (text@, next as int) && at
                < next <= chars.len(),
            None => decode_string(chars@, at as int).1 < 0,
        },
{
    if !stands_at(chars, at, '"') {
        return None;
    }
    let ghost s = chars@;
    let mut text = String::new();
    let mut i: usize = at + 1;
    assert(text@ + decode_chars(s, i as int).0 =~= decode_chars(s, i as int).0);
    loop
        invariant
            at < i <= chars.len(),
            s == chars@,
            is_at(s, at as int, '"'),
            decode_chars(s, at + 1).1 < 0 <==> decode_chars(s, i as int).1 < 0,
            decode_chars(s, i as int).1 >= 0 ==> decode_chars(s, at + 1) == (
                text@ + decode_chars(s, i as int).0,
                decode_chars(s, i as int).1,
            ),
        decreases chars.len() - i,
    {
        if i >= chars.len() {
            return None;
        }
        if chars[i] == '"' {
            assert(decode_chars(s, i as int) == (Seq::<char>::empty(), i + 1));
            assert(text@ + Seq::<char>::empty() =~= text@);
            return Some((text, i + 1));
        }
        match read_char(chars, i) {
            Some((c, next)) => {
                proof {
                    let (rest, end) = decode_chars(s, next as int);
                    if end >= 0 {
                        assert(text@ + (seq![c] + rest) =~= text@.push(c) + rest);
                    }
                }
                text.push(c);
                i = next;
            },
            None => {
                return None;
            },
        }
    }
}

/// Reads a decimal number up to 65535.
fn read_number(chars: &Vec<char>, at: usize) -> (r: Option<(u16, usize)>)
    ensures
        match r {
            Some((value, next)) => decode_number(chars@, at as int) == (value, next as int) && at
                < next <= chars.len(),
            None => decode_number(chars@, at as int).1 < 0,
        },
{
    let len = chars.len();
    if at > len {
        return None;
    }
    let end = skip_run(chars, at, len, CharClass::Digit, true);
    proof {
        let rest = chars@.subrange(at as int, len as int);
        assert(rest =~= chars@.skip(at as int));
        lemma_run_spans(rest, CharClass::Digit, true);
        assert forall|i: int| at <= i < end implies in_class(
            #[trigger] chars@[i],
            CharClass::Digit,
        ) by {
            assert(chars@[i] == rest[i - at]);
        }
    }
    if end == at {
        return None;
    }
    match read_numeral(chars, at, end) {
        Some(value) => Some((value, end)),
        None => None,
    }
}

/// Reads `true` or `false`.
fn read_bool(chars: &Vec<char>, at: usize) -> (r: Option<(bool, usize)>)
    ensures
        match r {
            Some((value, next)) => decode_bool(chars@, at as int) == (value, next as int) && at
                < next <= chars.len(),
            None => decode_bool(chars@, at as int).1 < 0,
        },
{
    if chars.len() < 4 || at > chars.len() - 4 {
        return None;
    }
    if chars[at] == 't' && chars[at + 1] == 'r' && chars[at + 2] == 'u' && chars[at + 3] == 'e' {
        Some((true, at + 4))
    } else if at + 4 < chars.len() && chars[at] == 'f' && chars[at + 1] == 'a' && chars[at + 2]
        == 'l' && chars[at + 3] == 's' && chars[at + 4] == 'e' {
        Some((false, at + 5))
    } else {
        None
    }
}

/// Reads what introduces the first field of an object.
fn read_first_key(chars: &Vec<char>, at: usize) -> (r: Option<(String, usize)>)
    ensures
        match r {
            Some((name, next)) => decode_first_key(chars@, at as int) == (name@, next as int)
                && at < next <= chars.len(),
            None => decode_first_key(chars@, at as int).1 < 0,
        },
{
    match read_string(chars, at) {
        Some((name, next)) => {
            if stands_at(chars, next, ':') {
                Some((name, next + 1))
            } else {
                None
            }
        },
        None => None,
    }
}

/// Finds the value of the field `name`, if that field stands at `at` as a
/// later field of an object.
fn find_key(chars: &Vec<char>, at: usize, name: &str) -> (r: Option<usize>)
    ensures
        match r {
            Some(value_at) => expect_key(chars@, at as int, name@) == value_at && at < value_at
                <= chars.len(),
            None => expect_key(chars@, at as int, name@) < 0,
        },
{
    if !stands_at(chars, at, ',') {
        return None;
    }
    match read_first_key(chars, at + 1) {
        Some((found, value_at)) => {
            if found.as_str().eq(name) {
                Some(value_at)
            } else {
                None
            }
        },
        None => None,
    }
}

/// Finds the value of the field `name`, if an object that starts with that
/// field stands at `at`.
fn find_first_key(chars: &Vec<char>, at: usize, name: &str) -> (r: Option<usize>)
    ensures
        match r {
            Some(value_at) => expect_first_key(chars@, at as int, name@) == value_at && at
                < value_at <= chars.len(),
            None => expect_first_key(chars@, at as int, name@) < 0,
        },
{
    if !stands_at(chars, at, '{') {
        return None;
    }
    match read_first_key(chars, at + 1) {
        Some((found, value_at)) => {
            if found.as_str().eq(name) {
                Some(value_at)
            } else {
                None
            }
        },
        None => None,
    }
}

/// The position after the character `c` at `at`, if it stands there.
fn pass_over(chars: &Vec<char>, at: usize, c: char) -> (r: Option<usize>)
    ensures
        match r {
            Some(next) => pass(chars@, at as int, c) == next && at < next <= chars.len(),
            None => pass(chars@, at as int, c) < 0,
        },
{
    if stands_at(chars, at, c) {
        Some(at + 1)
    } else {
        None
    }
}

fn permission_of(name: &str) -> (r: Option<Permission>)
    ensures
        r == permission_named(name@),
{
    if name.eq("student") {
        Some(Permission::Student)
    } else if name.eq("staff") {
        Some(Permission::Staff)
    } else if name.eq("zeus") {
        Some(Permission::Zeus)
    } else {
        None
    }
}

fn format_of(name: &str) -> (r: Option<TestFormat>)
    ensures
        r == format_named(name@),
{
    if name.eq("text") {
        Some(TestFormat::Text)
    } else if name.eq("c-s-v") {
        Some(TestFormat::CSV)
    } else {
        None
    }
}

fn severity_of(name: &str) -> (r: Option<Severity>)
    ensures
        r == severity_named(name@),
{
    if name.eq("error") {
        Some(Severity::Error)
    } else if name.eq("warning") {
        Some(Severity::Warning)
    } else if name.eq("info") {
        Some(Severity::Info)
    } else {
        None
    }
}

fn status_of(name: &str) -> (r: Option<StatusEnum>)
    ensures
        r == status_named(name@),
{
    if name.eq("internal-error") {
        Some(StatusEnum::InternalError)
    } else if name.eq("compilation-error") {
        Some(StatusEnum::CompilationError)
    } else if name.eq("memory-limit-exceeded") {
        Some(StatusEnum::MemoryLimitExceeded)
    } else if name.eq("time-limit-exceeded") {
        Some(StatusEnum::TimeLimitExceeded)
    } else if name.eq("output-limit-exceeded") {
        Some(StatusEnum::OutputLimitExceeded)
    } else if name.eq("runtime-error") {
        Some(StatusEnum::RuntimeError)
    } else if name.eq("wrong") || name.eq("wrong answer") {
        Some(StatusEnum::Wrong)
    } else if name.eq("correct") || name.eq("correct answer") {
        Some(StatusEnum::Correct)
    } else {
        None
    }
}

/// Reads a permission by its wire name.
fn read_permission(chars: &Vec<char>, at: usize) -> (r: Option<(Permission, usize)>)
    ensures
        match r {
            Some((value, next)) => decode_permission(chars@, at as int) == (value, next as int)
                && at < next <= chars.len(),
            None => decode_permission(chars@, at as int).1 < 0,
        },
{
    match read_string(chars, at) {
        Some((name, next)) => match permission_of(name.as_str()) {
            Some(value) => Some((value, next)),
            None => None,
        },
        None => None,
    }
}

/// Reads a test format by its wire name.
fn read_format(chars: &Vec<char>, at: usize) -> (r: Option<(TestFormat, usize)>)
    ensures
        match r {
            Some((value, next)) => decode_format(chars@, at as int) == (value, next as int) && at
                < next <= chars.len(),
            None => decode_format(chars@, at as int).1 < 0,
        },
{
    match read_string(chars, at) {
        Some((name, next)) => match format_of(name.as_str()) {
            Some(value) => Some((value, next)),
            None => None,
        },
        None => None,
    }
}

/// Reads a severity by its wire name.
fn read_severity(chars: &Vec<char>, at: usize) -> (r: Option<(Severity, usize)>)
    ensures
        match r {
            Some((value, next)) => decode_severity(chars@, at as int) == (value, next as int)
                && at < next <= chars.len(),
            None => decode_severity(chars@, at as int).1 < 0,
        },
{
    match read_string(chars, at) {
        Some((name, next)) => match severity_of(name.as_str()) {
            Some(value) => Some((value, next)),
            None => None,
        },
        None => None,
    }
}

/// Reads a verdict by its wire name.
fn read_status_name(chars: &Vec<char>, at: usize) -> (r: Option<(StatusEnum, usize)>)
    ensures
        match r {
            Some((value, next)) => decode_status_name(chars@, at as int) == (value, next as int)
                && at < next <= chars.len(),
            None => decode_status_name(chars@, at as int).1 < 0,
        },
{
    match read_string(chars, at) {
        Some((name, next)) => match status_of(name.as_str()) {
            Some(value) => Some((value, next)),
            None => None,
        },
        None => None,
    }
}

/// Reads the value of a field that must stand at `at`, as a JSON string.
fn read_string_field(chars: &Vec<char>, at: usize, name: &str) -> (r: Option<(String, usize)>)
    ensures
        match r {
            Some((text, next)) => decode_string(chars@, expect_key(chars@, at as int, name@)) == (
                text@,
                next as int,
            ) && at < next <= chars.len(),
            None => decode_string(chars@, expect_key(chars@, at as int, name@)).1 < 0,
        },
{
    match find_key(chars, at, name) {
        Some(value_at) => read_string(chars, value_at),
        None => None,
    }
}

/// Reads a message.
fn read_message(chars: &Vec<char>, at: usize) -> (r: Option<(Message, usize)>)
    ensures
        match r {
            Some((message, next)) => decode_message(chars@, at as int) == (message@, next as int)
                && at < next <= chars.len(),
            None => decode_message(chars@, at as int).1 < 0,
        },
{
    if stands_at(chars, at, '"') {
        return match read_string(chars, at) {
            Some((text, next)) => Some((Message::String(text), next)),
            None => None,
        };
    }
    let value_at = match find_first_key(chars, at, "format") {
        Some(value_at) => value_at,
        None => {
            return None;
        },
    };
    let (format, at1) = match read_string(chars, value_at) {
        Some(read) => read,
        None => {
            return None;
        },
    };
    let (description, at2) = match read_string_field(chars, at1, "description") {
        Some(read) => read,
        None => {
            return None;
        },
    };
    let value_at = match find_key(chars, at2, "permission") {
        Some(value_at) => value_at,
        None => {
            return None;
        },
    };
    let (permission, at3) = match read_permission(chars, value_at) {
        Some(read) => read,
        None => {
            return None;
        },
    };
    match pass_over(chars, at3, '}') {
        Some(next) => Some((Message::Object { format, description, permission }, next)),
        None => None,
    }
}

/// Reads a status.
fn read_status(chars: &Vec<char>, at: usize) -> (r: Option<(Status, usize)>)
    ensures
        match r {
            Some((status, next)) => decode_status(chars@, at as int) == (status@, next as int)
                && at < next <= chars.len(),
            None => decode_status(chars@, at as int).1 < 0,
        },
{
    let value_at = match find_first_key(chars, at, "enum") {
        Some(value_at) => value_at,
        None => {
            return None;
        },
    };
    let (enum_, at1) = match read_status_name(chars, value_at) {
        Some(read) => read,
        None => {
            return None;
        },
    };
    let (human, at2) = match read_string_field(chars, at1, "human") {
        Some(read) => read,
        None => {
            return None;
        },
    };
    match pass_over(chars, at2, '}') {
        Some(next) => Some((Status { enum_, human }, next)),
        None => None,
    }
}

/// Reads a field that may be left out and holds a truth value.
fn read_optional_bool(chars: &Vec<char>, at: usize, name: &str) -> (r: Option<
    (Option<bool>, usize),
>)
    requires
        at <= chars.len(),
    ensures
        match r {
            Some((value, next)) => decode_optional_bool(chars@, at as int, name@) == (
                value,
                next as int,
            ) && at <= next <= chars.len(),
            None => decode_optional_bool(chars@, at as int, name@).1 < 0,
        },
{
    match find_key(chars, at, name) {
        Some(value_at) => match read_bool(chars, value_at) {
            Some((value, next)) => Some((Some(value), next)),
            None => None,
        },
        None => Some((None, at)),
    }
}

/// Reads a field that may be left out and holds a number.
fn read_optional_number(chars: &Vec<char>, at: usize, name: &str) -> (r: Option<
    (Option<u16>, usize),
>)
    requires
        at <= chars.len(),
    ensures
        match r {
            Some((value, next)) => decode_optional_number(chars@, at as int, name@) == (
                value,
                next as int,
            ) && at <= next <= chars.len(),
            None => decode_optional_number(chars@, at as int, name@).1 < 0,
        },
{
    match find_key(chars, at, name) {
        Some(value_at) => match read_number(chars, value_at) {
            Some((value, next)) => Some((Some(value), next)),
            None => None,
        },
        None => Some((None, at)),
    }
}

/// Reads a field that may be left out and holds a text.
fn read_optional_string(chars: &Vec<char>, at: usize, name: &str) -> (r: Option<
    (Option<String>, usize),
>)
    requires
        at <= chars.len(),
    ensures
        match r {
            Some((value, next)) => decode_optional_string(chars@, at as int, name@) == (
                opt_text(value),
                next as int,
            ) && at <= next <= chars.len(),
            None => decode_optional_string(chars@, at as int, name@).1 < 0,
        },
{
    match find_key(chars, at, name) {
        Some(value_at) => match read_string(chars, value_at) {
            Some((value, next)) => Some((Some(value), next)),
            None => None,
        },
        None => Some((None, at)),
    }
}

/// Reads a field that may be left out and holds a message.
fn read_optional_message(chars: &Vec<char>, at: usize, name: &str) -> (r: Option<
    (Option<Message>, usize),
>)
    requires
        at <= chars.len(),
    ensures
        match r {
            Some((value, next)) => decode_optional_message(chars@, at as int, name@) == (
                opt_message(value),
                next as int,
            ) && at <= next <= chars.len(),
            None => decode_optional_message(chars@, at as int, name@).1 < 0,
        },
{
    match find_key(chars, at, name) {
        Some(value_at) => match read_message(chars, value_at) {
            Some((value, next)) => Some((Some(value), next)),
            None => None,
        },
        None => Some((None, at)),
    }
}

/// Reads a field that may be left out and holds a status.
fn read_optional_status(chars: &Vec<char>, at: usize, name: &str) -> (r: Option<
    (Option<Status>, usize),
>)
    requires
        at <= chars.len(),
    ensures
        match r {
            Some((value, next)) => decode_optional_status(chars@, at as int, name@) == (
                opt_status(value),
                next as int,
            ) && at <= next <= chars.len(),
            None => decode_optional_status(chars@, at as int, name@).1 < 0,
        },
{
    match find_key(chars, at, name) {
        Some(value_at) => match read_status(chars, value_at) {
            Some((value, next)) => Some((Some(value), next)),
            None => None,
        },
        None => Some((None, at)),
    }
}

/// Reads a field that may be left out and holds a permission.
fn read_optional_permission(chars: &Vec<char>, at: usize, name: &str) -> (r: Option<
    (Option<Permission>, usize),
>)
    requires
        at <= chars.len(),
    ensures
        match r {
            Some((value, next)) => decode_optional_permission(chars@, at as int, name@) == (
                value,
                next as int,
            ) && at <= next <= chars.len(),
            None => decode_optional_permission(chars@, at as int, name@).1 < 0,
        },
{
    match find_key(chars, at, name) {
        Some(value_at) => match read_permission(chars, value_at) {
            Some((value, next)) => Some((Some(value), next)),
            None => None,
        },
        None => Some((None, at)),
    }
}

/// Reads a field that may be left out and holds a test format.
fn read_optional_format(chars: &Vec<char>, at: usize, name: &str) -> (r: Option<
    (Option<TestFormat>, usize),
>)
    requires
        at <= chars.len(),
    ensures
        match r {
            Some((value, next)) => decode_optional_format(chars@, at as int, name@) == (
                value,
                next as int,
            ) && at <= next <= chars.len(),
            None => decode_optional_format(chars@, at as int, name@).1 < 0,
        },
{
    match find_key(chars, at, name) {
        Some(value_at) => match read_format(chars, value_at) {
            Some((value, next)) => Some((Some(value), next)),
            None => None,
        },
        None => Some((None, at)),
    }
}

/// Reads a field that may be left out and holds a severity.
fn read_optional_severity(chars: &Vec<char>, at: usize, name: &str) -> (r: Option<
    (Option<Severity>, usize),
>)
    requires
        at <= chars.len(),
    ensures
        match r {
            Some((value, next)) => decode_optional_severity(chars@, at as int, name@) == (
                value,
                next as int,
            ) && at <= next <= chars.len(),
            None => decode_optional_severity(chars@, at as int, name@).1 < 0,
        },
{
    match find_key(chars, at, name) {
        Some(value_at) => match read_severity(chars, value_at) {
            Some((value, next)) => Some((Some(value), next)),
            None => None,
        },
        None => Some((None, at)),
    }
}

/// Reads the value of a field that must stand at `at`, as a message.
fn read_message_field(chars: &Vec<char>, at: usize, name: &str) -> (r: Option<(Message, usize)>)
    ensures
        match r {
            Some((message, next)) => decode_message(
                chars@,
                expect_key(chars@, at as int, name@),
            ) == (message@, next as int) && at < next <= chars.len(),
            None => decode_message(chars@, expect_key(chars@, at as int, name@)).1 < 0,
        },
{
    match find_key(chars, at, name) {
        Some(value_at) => read_message(chars, value_at),
        None => None,
    }
}

/// Reads the value of a field that must stand at `at`, as a status.
fn read_status_field(chars: &Vec<char>, at: usize, name: &str) -> (r: Option<(Status, usize)>)
    ensures
        match r {
            Some((status, next)) => decode_status(chars@, expect_key(chars@, at as int, name@))
                == (status@, next as int) && at < next <= chars.len(),
            None => decode_status(chars@, expect_key(chars@, at as int, name@)).1 < 0,
        },
{
    match find_key(chars, at, name) {
        Some(value_at) => read_status(chars, value_at),
        None => None,
    }
}

/// Reads the fields of the event that opens a tab.
fn read_start_tab(chars: &Vec<char>, at: usize) -> (r: Option<(Command, usize)>)
    ensures
        match r {
            Some((command, next)) => decode_start_tab(chars@, at as int) == (
                command@,
                next as int,
            ) && at <= next <= chars.len(),
            None => decode_start_tab(chars@, at as int).1 < 0,
        },
{
    let (title, at1) = match read_string_field(chars, at, "title") {
        Some(read) => read,
        None => {
            return None;
        },
    };
    let (hidden, at2) = match read_optional_bool(chars, at1, "hidden") {
        Some(read) => read,
        None => {
            return None;
        },
    };
    match read_optional_permission(chars, at2, "permission") {
        Some((permission, at3)) => Some((Command::StartTab { title, hidden, permission }, at3)),
        None => None,
    }
}

/// Reads the fields of the event that opens a test.
fn read_start_test(chars: &Vec<char>, at: usize) -> (r: Option<(Command, usize)>)
    ensures
        match r {
            Some((command, next)) => decode_start_test(chars@, at as int) == (
                command@,
                next as int,
            ) && at <= next <= chars.len(),
            None => decode_start_test(chars@, at as int).1 < 0,
        },
{
    let (expected, at1) = match read_string_field(chars, at, "expected") {
        Some(read) => read,
        None => {
            return None;
        },
    };
    let (format, at2) = match read_optional_format(chars, at1, "format") {
        Some(read) => read,
        None => {
            return None;
        },
    };
    let (description, at3) = match read_optional_message(chars, at2, "description") {
        Some(read) => read,
        None => {
            return None;
        },
    };
    match read_optional_string(chars, at3, "channel") {
        Some((channel, at4)) => Some(
            (Command::StartTest { expected, format, description, channel }, at4),
        ),
        None => None,
    }
}

/// Reads the fields of the event that annotates the submitted code.
fn read_annotate_code(chars: &Vec<char>, at: usize) -> (r: Option<(Command, usize)>)
    ensures
        match r {
            Some((command, next)) => decode_annotate_code(chars@, at as int) == (
                command@,
                next as int,
            ) && at <= next <= chars.len(),
            None => decode_annotate_code(chars@, at as int).1 < 0,
        },
{
    let value_at = match find_key(chars, at, "row") {
        Some(value_at) => value_at,
        None => {
            return None;
        },
    };
    let (row, at1) = match read_number(chars, value_at) {
        Some(read) => read,
        None => {
            return None;
        },
    };
    let (column, at2) = match read_optional_number(chars, at1, "column") {
        Some(read) => read,
        None => {
            return None;
        },
    };
    let (text, at3) = match read_string_field(chars, at2, "text") {
        Some(read) => read,
        None => {
            return None;
        },
    };
    let (external_url, at4) = match read_optional_string(chars, at3, "externalUrl") {
        Some(read) => read,
        None => {
            return None;
        },
    };
    let (type_, at5) = match read_optional_severity(chars, at4, "type") {
        Some(read) => read,
        None => {
            return None;
        },
    };
    let (rows, at6) = match read_optional_number(chars, at5, "rows") {
        Some(read) => read,
        None => {
            return None;
        },
    };
    match read_optional_number(chars, at6, "columns") {
        Some((columns, at7)) => Some(
            (Command::AnnotateCode { row, column, text, external_url, type_, rows, columns }, at7),
        ),
        None => None,
    }
}

/// Reads the fields of the event that closes a test.
fn read_close_test(chars: &Vec<char>, at: usize) -> (r: Option<(Command, usize)>)
    ensures
        match r {
            Some((command, next)) => decode_close_test(chars@, at as int) == (
                command@,
                next as int,
            ) && at <= next <= chars.len(),
            None => decode_close_test(chars@, at as int).1 < 0,
        },
{
    let (generated, at1) = match read_string_field(chars, at, "generated") {
        Some(read) => read,
        None => {
            return None;
        },
    };
    let (accepted, at2) = match read_optional_bool(chars, at1, "accepted") {
        Some(read) => read,
        None => {
            return None;
        },
    };
    match read_status_field(chars, at2, "status") {
        Some((status, at3)) => Some((Command::CloseTest { generated, accepted, status }, at3)),
        None => None,
    }
}

/// Reads the fields of the event that closes a judgement.
fn read_close_judgement(chars: &Vec<char>, at: usize) -> (r: Option<(Command, usize)>)
    requires
        at <= chars.len(),
    ensures
        match r {
            Some((command, next)) => decode_close_judgement(chars@, at as int) == (
                command@,
                next as int,
            ) && at <= next <= chars.len(),
            None => decode_close_judgement(chars@, at as int).1 < 0,
        },
{
    let (accepted, at1) = match read_optional_bool(chars, at, "accepted") {
        Some(read) => read,
        None => {
            return None;
        },
    };
    match read_optional_status(chars, at1, "status") {
        Some((status, at2)) => Some((Command::CloseJudgement { accepted, status }, at2)),
        None => None,
    }
}

/// Reads the fields of the event called `name`.
fn read_fields(chars: &Vec<char>, at: usize, name: &str) -> (r: Option<(Command, usize)>)
    requires
        at <= chars.len(),
    ensures
        match r {
            Some((command, next)) => decode_fields(chars@, at as int, name@) == (
                command@,
                next as int,
            ) && at <= next <= chars.len(),
            None => decode_fields(chars@, at as int, name@).1 < 0,
        },
{
    reveal(decode_fields);
    if name.eq("start-judgement") {
        Some((Command::StartJudgement, at))
    } else if name.eq("start-tab") {
        read_start_tab(chars, at)
    } else if name.eq("start-context") {
        match read_optional_message(chars, at, "description") {
            Some((description, next)) => Some((Command::StartContext { description }, next)),
            None => None,
        }
    } else if name.eq("start-testcase") {
        match read_message_field(chars, at, "description") {
            Some((description, next)) => Some((Command::StartTestcase { description }, next)),
            None => None,
        }
    } else if name.eq("start-test") {
        read_start_test(chars, at)
    } else if name.eq("append-message") {
        match read_message_field(chars, at, "message") {
            Some((message, next)) => Some((Command::AppendMessage { message }, next)),
            None => None,
        }
    } else if name.eq("annotate-code") {
        read_annotate_code(chars, at)
    } else if name.eq("escalate-status") {
        match read_status_field(chars, at, "status") {
            Some((status, next)) => Some((Command::EscalateStatus { status }, next)),
            None => None,
        }
    } else if name.eq("close-test") {
        read_close_test(chars, at)
    } else if name.eq("close-testcase") {
        match read_optional_bool(chars, at, "accepted") {
            Some((accepted, next)) => Some((Command::CloseTestcase { accepted }, next)),
            None => None,
        }
    } else if name.eq("close-context") {
        match read_optional_bool(chars, at, "accepted") {
            Some((accepted, next)) => Some((Command::CloseContext { accepted }, next)),
            None => None,
        }
    } else if name.eq("close-tab") {
        match read_optional_number(chars, at, "badgeCount") {
            Some((badge_count, next)) => Some((Command::CloseTab { badge_count }, next)),
            None => None,
        }
    } else if name.eq("close-judgement") {
        read_close_judgement(chars, at)
    } else {
        None
    }
}

/// From a failure the fields of no event are read.
pub proof fn lemma_decode_fields_fails(s: Seq<char>, at: int, name: Seq<char>)
    requires
        at < 0,
    ensures
        decode_fields(s, at, name).1 < 0,
{
    reveal(decode_fields);
}

/// Reads an event.
fn read_command(chars: &Vec<char>, at: usize) -> (r: Option<(Command, usize)>)
    ensures
        match r {
            Some((command, next)) => decode_command(chars@, at as int) == (command@, next as int)
                && at < next <= chars.len(),
            None => decode_command(chars@, at as int).1 < 0,
        },
{
    let value_at = match find_first_key(chars, at, "command") {
        Some(value_at) => value_at,
        None => {
            proof {
                let (name, at1) = decode_string(chars@, -1);
                lemma_decode_fields_fails(chars@, at1, name);
            }
            return None;
        },
    };
    let (name, at1) = match read_string(chars, value_at) {
        Some(read) => read,
        None => {
            proof {
                let (name, at1) = decode_string(chars@, value_at as int);
                lemma_decode_fields_fails(chars@, at1, name);
            }
            return None;
        },
    };
    let (command, at2) = match read_fields(chars, at1, name.as_str()) {
        Some(read) => read,
        None => {
            return None;
        },
    };
    match pass_over(chars, at2, '}') {
        Some(next) => Some((command, next)),
        None => None,
    }
}

/// Reads the wire form of one event. It gives the event where the whole text
/// is read as one event, and `None` for a text that is not read as one. What
/// the encoder writes for an event is read back as that event.
pub fn decode(line: &str) -> (r: Option<Command>)
    ensures
        match r {
            Some(command) => decoded(line@) == Some(command@),
            None => decoded(line@) is None,
        },
{
    let chars = chars_of(line);
    match read_command(&chars, 0) {
        Some((command, end)) => {
            if end == chars.len() {
                Some(command)
            } else {
                None
            }
        },
        None => None,
    }
}

/// Reads the wire form of a trace: events, each on a line of its own that a
/// line feed ends. It gives the trace where the whole text is read as lines
/// of events, and `None` for a text that is not read so. What the encoder
/// writes for a trace is read back as that trace.
pub fn decode_all(text: &str) -> (r: Option<Vec<Command>>)
    ensures
        match r {
            Some(trace) => decode_trace(text@, 0) == Some(events(trace@)),
            None => decode_trace(text@, 0) is None,
        },
{
    let chars = chars_of(text);
    let ghost s = chars@;
    let mut trace: Vec<Command> = Vec::new();
    let mut at: usize = 0;
    assert(events(trace@) =~= Seq::<CommandView>::empty());
    while at < chars.len()
        invariant
            at <= chars.len(),
            s == chars@,
            s == text@,
            decode_trace(s, 0) is None <==> decode_trace(s, at as int) is None,
            decode_trace(s, at as int) matches Some(rest) ==> decode_trace(s, 0) == Some(
                events(trace@) + rest,
            ),
        decreases chars.len() - at,
    {
        let (command, end) = match read_command(&chars, at) {
            Some(read) => read,
            None => {
                return None;
            },
        };
        let next = match pass_over(&chars, end, '\n') {
            Some(next) => next,
            None => {
                return None;
            },
        };
        let ghost so_far = events(trace@);
        proof {
            if let Some(rest) = decode_trace(s, next as int) {
                assert(so_far + (seq![command@] + rest) =~= so_far.push(command@) + rest);
            }
        }
        trace.push(command);
        assert(events(trace@) =~= so_far.push(command@));
        at = next;
    }
    assert(events(trace@) + Seq::<CommandView>::empty() =~= events(trace@));
    Some(trace)
}

} // verus!
