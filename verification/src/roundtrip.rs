//! The wire encoding loses nothing: what the encoder writes, the decoder
//! reads back as the same events.

use vstd::prelude::*;
use crate::decode::{
    coded, decode_annotate_code, decode_bool, decode_char, decode_chars, decode_close_judgement,
    decode_close_test, decode_command, decode_fields, decode_first_key, decode_format, decode_key,
    decode_message, decode_number, decode_optional_bool, decode_optional_format,
    decode_optional_message, decode_optional_number, decode_optional_permission,
    decode_optional_severity, decode_optional_status, decode_optional_string, decode_permission,
    decode_severity, decode_start_tab, decode_start_test, decode_status, decode_status_name,
    decode_string, decode_trace, decoded, expect_first_key, expect_key, format_named, hex_value,
    is_at, permission_named, severity_named, short_escape, status_named,
};
use crate::grammar::{CharClass, in_class, numeral, run};
use crate::protocol::{
    CommandView, MessageView, Permission, Severity, StatusEnum, StatusView, TestFormat,
};
use crate::text::decimal;
use crate::wire::{
    annotate_code_fields, bool_text, close_judgement_fields, close_test_fields, command_name,
    encode_command, encode_message, encode_status, encode_trace, escape, escaped, field, fields,
    first_field, first_key, format_name, hex_digit, json_string, key, opt_format, opt_permission,
    opt_severity, optional_bool, optional_message, optional_number, optional_status,
    optional_string, permission_name, severity_name, start_tab_fields, start_test_fields,
    status_name,
};

verus! {

/// Whether `word` stands in `s` at position `at`.
pub open spec fn starts_with(s: Seq<char>, at: int, word: Seq<char>) -> bool {
    &&& 0 <= at
    &&& at + word.len() <= s.len()
    &&& s.subrange(at, at + word.len()) == word
}

/// Where two words stand one after the other, each of them stands at its
/// place.
pub proof fn lemma_split(s: Seq<char>, at: int, first: Seq<char>, second: Seq<char>)
    requires
        starts_with(s, at, first + second),
    ensures
        starts_with(s, at, first),
        starts_with(s, at + first.len(), second),
{
    let whole = first + second;
    assert(s.subrange(at, at + first.len()) =~= whole.subrange(0, first.len() as int)) by {
        assert forall|i: int| 0 <= i < first.len() implies s.subrange(at, at + first.len())[i]
            == whole.subrange(0, first.len() as int)[i] by {
            assert(s.subrange(at, at + whole.len())[i] == whole[i]);
        }
    }
    assert(whole.subrange(0, first.len() as int) =~= first);
    assert(s.subrange(at + first.len(), at + first.len() + second.len()) =~= whole.subrange(
        first.len() as int,
        whole.len() as int,
    )) by {
        assert forall|i: int| 0 <= i < second.len() implies s.subrange(
            at + first.len(),
            at + first.len() + second.len(),
        )[i] == whole.subrange(first.len() as int, whole.len() as int)[i] by {
            assert(s.subrange(at, at + whole.len())[first.len() + i] == whole[first.len() + i]);
        }
    }
    assert(whole.subrange(first.len() as int, whole.len() as int) =~= second);
}

/// Where a word stands, each of its characters stands at its place.
pub proof fn lemma_char_at(s: Seq<char>, at: int, word: Seq<char>, i: int)
    requires
        starts_with(s, at, word),
        0 <= i < word.len(),
    ensures
        is_at(s, at + i, word[i]),
{
    assert(s.subrange(at, at + word.len())[i] == word[i]);
}

/// The value of a hexadecimal digit is the number it was made for.
pub proof fn lemma_hex_digit(n: nat)
    requires
        n < 16,
    ensures
        hex_value(hex_digit(n)) == Some(n),
{
}

/// The decoder reads an escaped character back.
pub proof fn lemma_decode_char(s: Seq<char>, at: int, c: char)
    requires
        starts_with(s, at, escaped(c)),
    ensures
        escaped(c).len() > 0,
        decode_char(s, at) == (c, at + escaped(c).len()),
        !is_at(s, at, '"'),
{
    reveal_strlit("\\\"");
    reveal_strlit("\\\\");
    reveal_strlit("\\b");
    reveal_strlit("\\t");
    reveal_strlit("\\n");
    reveal_strlit("\\f");
    reveal_strlit("\\r");
    reveal_strlit("\\u00");
    let e = escaped(c);
    let u = c as u32;
    assert(e.len() > 0);
    lemma_char_at(s, at, e, 0);
    if u == 0x22 || u == 0x5C || u == 0x08 || u == 0x09 || u == 0x0A || u == 0x0C || u == 0x0D {
        assert(e.len() == 2);
        lemma_char_at(s, at, e, 1);
        assert(short_escape(s[at + 1]) == Some(c));
    } else if u < 0x20 {
        let high = (u / 16) as nat;
        let low = (u % 16) as nat;
        assert(e.len() == 6);
        lemma_char_at(s, at, e, 1);
        lemma_char_at(s, at, e, 2);
        lemma_char_at(s, at, e, 3);
        lemma_char_at(s, at, e, 4);
        lemma_char_at(s, at, e, 5);
        lemma_hex_digit(high);
        lemma_hex_digit(low);
        assert(e[4] == hex_digit(high));
        assert(e[5] == hex_digit(low));
        assert(short_escape(s[at + 1]) is None);
        assert(coded(high * 16 + low) == c);
    } else {
        assert(e.len() == 1);
    }
}

/// The decoder reads the escaped characters of a text back, up to the quote
/// that closes the string.
pub proof fn lemma_decode_chars(s: Seq<char>, at: int, text: Seq<char>)
    requires
        starts_with(s, at, escape(text) + "\""@),
    ensures
        decode_chars(s, at) == (text, at + escape(text).len() + 1),
    decreases text.len(),
{
    reveal_strlit("\"");
    lemma_split(s, at, escape(text), "\""@);
    if text.len() == 0 {
        lemma_char_at(s, at, "\""@, 0);
    } else {
        let head = escaped(text[0]);
        let tail = escape(text.drop_first());
        assert(escape(text) + "\""@ =~= head + (tail + "\""@));
        lemma_split(s, at, head, tail + "\""@);
        lemma_decode_char(s, at, text[0]);
        lemma_decode_chars(s, at + head.len(), text.drop_first());
        assert(seq![text[0]] + text.drop_first() =~= text);
    }
}

/// The decoder reads a JSON string back.
pub proof fn lemma_decode_string(s: Seq<char>, at: int, text: Seq<char>)
    requires
        starts_with(s, at, json_string(text)),
    ensures
        decode_string(s, at) == (text, at + json_string(text).len()),
        is_at(s, at, '"'),
{
    reveal_strlit("\"");
    assert(json_string(text) =~= "\""@ + (escape(text) + "\""@));
    lemma_split(s, at, "\""@, escape(text) + "\""@);
    lemma_char_at(s, at, "\""@, 0);
    lemma_decode_chars(s, at + 1, text);
}

/// The decoder reads what introduces a first field back.
pub proof fn lemma_decode_first_key(s: Seq<char>, at: int, name: Seq<char>)
    requires
        starts_with(s, at, first_key(name)),
    ensures
        decode_first_key(s, at) == (name, at + first_key(name).len()),
{
    reveal_strlit(":");
    lemma_split(s, at, json_string(name), ":"@);
    lemma_decode_string(s, at, name);
    lemma_char_at(s, at + json_string(name).len(), ":"@, 0);
}

/// The decoder reads what introduces a later field back.
pub proof fn lemma_decode_key(s: Seq<char>, at: int, name: Seq<char>)
    requires
        starts_with(s, at, key(name)),
    ensures
        decode_key(s, at) == (name, at + key(name).len()),
        is_at(s, at, ','),
{
    reveal_strlit(",");
    lemma_split(s, at, ","@, first_key(name));
    lemma_char_at(s, at, ","@, 0);
    lemma_decode_first_key(s, at + 1, name);
}

/// The decoder reads a truth value back.
pub proof fn lemma_decode_bool(s: Seq<char>, at: int, b: bool)
    requires
        starts_with(s, at, bool_text(b)),
    ensures
        decode_bool(s, at) == (b, at + bool_text(b).len()),
{
    reveal_strlit("true");
    reveal_strlit("false");
    let word = bool_text(b);
    lemma_char_at(s, at, word, 0);
    lemma_char_at(s, at, word, 1);
    lemma_char_at(s, at, word, 2);
    lemma_char_at(s, at, word, 3);
    if !b {
        lemma_char_at(s, at, word, 4);
    }
}

/// A run is exactly as long as the stretch of its kind that the text starts
/// with.
pub proof fn lemma_run_exact(s: Seq<char>, class: CharClass, member: bool, n: int)
    requires
        0 <= n <= s.len(),
        forall|i: int| 0 <= i < n ==> in_class(#[trigger] s[i], class) == member,
        n < s.len() ==> in_class(s[n], class) != member,
    ensures
        run(s, class, member) == n,
    decreases n,
{
    if n > 0 {
        let rest = s.drop_first();
        assert forall|i: int| 0 <= i < n - 1 implies in_class(#[trigger] rest[i], class)
            == member by {
            assert(rest[i] == s[i + 1]);
        }
        if n - 1 < rest.len() {
            assert(rest[n - 1] == s[n]);
        }
        lemma_run_exact(rest, class, member, n - 1);
    }
}

/// A decimal numeral is made of digits, one at least.
pub proof fn lemma_decimal_digits(n: nat)
    ensures
        decimal(n).len() >= 1,
        forall|i: int| 0 <= i < decimal(n).len() ==> in_class(
            #[trigger] decimal(n)[i],
            CharClass::Digit,
        ),
    decreases n,
{
    if n >= 10 {
        lemma_decimal_digits(n / 10);
        let shorter = decimal(n / 10);
        assert forall|i: int| 0 <= i < decimal(n).len() implies in_class(
            #[trigger] decimal(n)[i],
            CharClass::Digit,
        ) by {
            if i < shorter.len() {
                assert(decimal(n)[i] == shorter[i]);
            }
        }
    }
}

/// A decimal numeral writes the number it was made for.
pub proof fn lemma_numeral_decimal(n: nat)
    ensures
        numeral(decimal(n)) == n,
    decreases n,
{
    if n < 10 {
        assert(decimal(n).drop_last() =~= Seq::<char>::empty());
        assert(numeral(decimal(n).drop_last()) == 0);
    } else {
        lemma_numeral_decimal(n / 10);
        assert(decimal(n).drop_last() =~= decimal(n / 10));
    }
}

/// The decoder reads a number back, where no digit follows it.
pub proof fn lemma_decode_number(s: Seq<char>, at: int, value: u16)
    requires
        starts_with(s, at, decimal(value as nat)),
        at + decimal(value as nat).len() < s.len() ==> !in_class(
            s[at + decimal(value as nat).len()],
            CharClass::Digit,
        ),
    ensures
        decode_number(s, at) == (value, at + decimal(value as nat).len()),
{
    let word = decimal(value as nat);
    let n = word.len() as int;
    let rest = s.skip(at);
    lemma_decimal_digits(value as nat);
    lemma_numeral_decimal(value as nat);
    assert forall|i: int| 0 <= i < n implies in_class(#[trigger] rest[i], CharClass::Digit) by {
        lemma_char_at(s, at, word, i);
    }
    lemma_run_exact(rest, CharClass::Digit, true, n);
}

/// Each permission is found again by its wire name.
pub proof fn lemma_permission_named(p: Permission)
    ensures
        permission_named(permission_name(p)) == Some(p),
{
    reveal_strlit("student");
    reveal_strlit("staff");
    reveal_strlit("zeus");
    assert("student"@.len() == 7);
    assert("staff"@.len() == 5);
    assert("zeus"@.len() == 4);
}

/// Each test format is found again by its wire name.
pub proof fn lemma_format_named(f: TestFormat)
    ensures
        format_named(format_name(f)) == Some(f),
{
    reveal_strlit("text");
    reveal_strlit("c-s-v");
    assert("text"@.len() == 4);
    assert("c-s-v"@.len() == 5);
}

/// Each severity is found again by its wire name.
pub proof fn lemma_severity_named(v: Severity)
    ensures
        severity_named(severity_name(v)) == Some(v),
{
    reveal_strlit("error");
    reveal_strlit("warning");
    reveal_strlit("info");
    assert("error"@.len() == 5);
    assert("warning"@.len() == 7);
    assert("info"@.len() == 4);
}

/// Each verdict is found again by its wire name.
pub proof fn lemma_status_named(v: StatusEnum)
    ensures
        status_named(status_name(v)) == Some(v),
{
    reveal_strlit("internal-error");
    reveal_strlit("compilation-error");
    reveal_strlit("memory-limit-exceeded");
    reveal_strlit("time-limit-exceeded");
    reveal_strlit("output-limit-exceeded");
    reveal_strlit("runtime-error");
    reveal_strlit("wrong");
    reveal_strlit("wrong answer");
    reveal_strlit("correct");
    reveal_strlit("correct answer");
    assert("internal-error"@.len() == 14);
    assert("compilation-error"@.len() == 17);
    assert("memory-limit-exceeded"@.len() == 21 && "memory-limit-exceeded"@[0] == 'm');
    assert("time-limit-exceeded"@.len() == 19);
    assert("output-limit-exceeded"@.len() == 21 && "output-limit-exceeded"@[0] == 'o');
    assert("runtime-error"@.len() == 13);
    assert("wrong"@.len() == 5);
    assert("wrong answer"@.len() == 12);
    assert("correct"@.len() == 7);
    assert("correct answer"@.len() == 14 && "correct answer"@[0] == 'c');
    assert("internal-error"@[0] == 'i');
}

/// The decoder reads a permission back.
pub proof fn lemma_decode_permission(s: Seq<char>, at: int, p: Permission)
    requires
        starts_with(s, at, json_string(permission_name(p))),
    ensures
        decode_permission(s, at) == (p, at + json_string(permission_name(p)).len()),
{
    lemma_decode_string(s, at, permission_name(p));
    lemma_permission_named(p);
}

/// The decoder reads a test format back.
pub proof fn lemma_decode_format(s: Seq<char>, at: int, f: TestFormat)
    requires
        starts_with(s, at, json_string(format_name(f))),
    ensures
        decode_format(s, at) == (f, at + json_string(format_name(f)).len()),
{
    lemma_decode_string(s, at, format_name(f));
    lemma_format_named(f);
}

/// The decoder reads a severity back.
pub proof fn lemma_decode_severity(s: Seq<char>, at: int, v: Severity)
    requires
        starts_with(s, at, json_string(severity_name(v))),
    ensures
        decode_severity(s, at) == (v, at + json_string(severity_name(v)).len()),
{
    lemma_decode_string(s, at, severity_name(v));
    lemma_severity_named(v);
}

/// The decoder reads a verdict back.
pub proof fn lemma_decode_status_name(s: Seq<char>, at: int, v: StatusEnum)
    requires
        starts_with(s, at, json_string(status_name(v))),
    ensures
        decode_status_name(s, at) == (v, at + json_string(status_name(v)).len()),
{
    lemma_decode_string(s, at, status_name(v));
    lemma_status_named(v);
}

/// The decoder finds the value of a later field where the field stands.
pub proof fn lemma_expect_key(s: Seq<char>, at: int, name: Seq<char>, value: Seq<char>)
    requires
        starts_with(s, at, field(name, value)),
    ensures
        expect_key(s, at, name) == at + key(name).len(),
        decode_key(s, at) == (name, at + key(name).len()),
        starts_with(s, at + key(name).len(), value),
        is_at(s, at, ','),
{
    lemma_split(s, at, key(name), value);
    lemma_decode_key(s, at, name);
}

/// The decoder finds the value of the first field of an object where the
/// object stands.
pub proof fn lemma_expect_first_key(s: Seq<char>, at: int, name: Seq<char>, value: Seq<char>)
    requires
        starts_with(s, at, "{"@ + first_field(name, value)),
    ensures
        expect_first_key(s, at, name) == at + 1 + first_key(name).len(),
        starts_with(s, at + 1 + first_key(name).len(), value),
        is_at(s, at, '{'),
{
    reveal_strlit("{");
    lemma_split(s, at, "{"@, first_field(name, value));
    lemma_char_at(s, at, "{"@, 0);
    lemma_split(s, at + 1, first_key(name), value);
    lemma_decode_first_key(s, at + 1, name);
}

/// The decoder reads a status back.
pub proof fn lemma_decode_status(s: Seq<char>, at: int, status: StatusView)
    requires
        starts_with(s, at, encode_status(status)),
    ensures
        decode_status(s, at) == (status, at + encode_status(status).len()),
        is_at(s, at, '{'),
{
    reveal_strlit("{");
    reveal_strlit("}");
    let name = json_string(status_name(status.enum_));
    let first = "{"@ + first_field("enum"@, name);
    let second = field("human"@, json_string(status.human));
    lemma_split(s, at, first + second, "}"@);
    lemma_split(s, at, first, second);
    lemma_expect_first_key(s, at, "enum"@, name);
    let at0 = at + 1 + first_key("enum"@).len();
    lemma_decode_status_name(s, at0, status.enum_);
    let at1 = at + first.len();
    lemma_expect_key(s, at1, "human"@, json_string(status.human));
    lemma_decode_string(s, at1 + key("human"@).len(), status.human);
    lemma_char_at(s, at + first.len() + second.len(), "}"@, 0);
}

/// The decoder reads a message back.
pub proof fn lemma_decode_message(s: Seq<char>, at: int, message: MessageView)
    requires
        starts_with(s, at, encode_message(message)),
    ensures
        decode_message(s, at) == (message, at + encode_message(message).len()),
        is_at(s, at, '"') || is_at(s, at, '{'),
{
    match message {
        MessageView::String(text) => {
            lemma_decode_string(s, at, text);
        },
        MessageView::Object { format, description, permission } => {
            reveal_strlit("{");
            reveal_strlit("}");
            let first = "{"@ + first_field("format"@, json_string(format));
            let second = field("description"@, json_string(description));
            let third = field("permission"@, json_string(permission_name(permission)));
            lemma_split(s, at, first + second + third, "}"@);
            lemma_split(s, at, first + second, third);
            lemma_split(s, at, first, second);
            lemma_expect_first_key(s, at, "format"@, json_string(format));
            lemma_decode_string(s, at + 1 + first_key("format"@).len(), format);
            let at1 = at + first.len();
            lemma_expect_key(s, at1, "description"@, json_string(description));
            lemma_decode_string(s, at1 + key("description"@).len(), description);
            let at2 = at1 + second.len();
            lemma_expect_key(s, at2, "permission"@, json_string(permission_name(permission)));
            lemma_decode_permission(s, at2 + key("permission"@).len(), permission);
            lemma_char_at(s, at2 + third.len(), "}"@, 0);
        },
    }
}

/// The name of the field that stands at `at` as a later field of an object,
/// if one stands there.
pub open spec fn next_key(s: Seq<char>, at: int) -> Option<Seq<char>> {
    if decode_key(s, at).1 >= 0 {
        Some(decode_key(s, at).0)
    } else {
        None
    }
}

/// Whether a comma or a closing brace stands at `at`: what follows a value
/// inside an object.
pub open spec fn value_ends(s: Seq<char>, at: int) -> bool {
    is_at(s, at, ',') || is_at(s, at, '}')
}

/// The decoder reads a field back that may be left out and holds a truth value.
pub proof fn lemma_optional_bool(s: Seq<char>, at: int, name: Seq<char>, value: Option<bool>)
    requires
        starts_with(s, at, optional_bool(name, value)),
        value is None ==> next_key(s, at) != Some(name),
    ensures
        decode_optional_bool(s, at, name) == (value, at + optional_bool(name, value).len()),
        value is Some ==> next_key(s, at) == Some(name) && is_at(s, at, ','),
{
    if let Some(v) = value {
        lemma_expect_key(s, at, name, bool_text(v));
        lemma_decode_bool(s, at + key(name).len(), v);
    }
}

/// The decoder reads a field back that may be left out and holds a number.
pub proof fn lemma_optional_number(s: Seq<char>, at: int, name: Seq<char>, value: Option<u16>)
    requires
        starts_with(s, at, optional_number(name, value)),
        value is None ==> next_key(s, at) != Some(name),
        value is Some ==> value_ends(s, at + optional_number(name, value).len()),
    ensures
        decode_optional_number(s, at, name) == (value, at + optional_number(name, value).len()),
        value is Some ==> next_key(s, at) == Some(name) && is_at(s, at, ','),
{
    if let Some(v) = value {
        lemma_expect_key(s, at, name, decimal(v as nat));
        lemma_decode_number(s, at + key(name).len(), v);
    }
}

/// The decoder reads a field back that may be left out and holds a text.
pub proof fn lemma_optional_string(s: Seq<char>, at: int, name: Seq<char>, value: Option<Seq<char>>)
    requires
        starts_with(s, at, optional_string(name, value)),
        value is None ==> next_key(s, at) != Some(name),
    ensures
        decode_optional_string(s, at, name) == (value, at + optional_string(name, value).len()),
        value is Some ==> next_key(s, at) == Some(name) && is_at(s, at, ','),
{
    if let Some(v) = value {
        lemma_expect_key(s, at, name, json_string(v));
        lemma_decode_string(s, at + key(name).len(), v);
    }
}

/// The decoder reads a field back that may be left out and holds a message.
pub proof fn lemma_optional_message(
    s: Seq<char>,
    at: int,
    name: Seq<char>,
    value: Option<MessageView>,
)
    requires
        starts_with(s, at, optional_message(name, value)),
        value is None ==> next_key(s, at) != Some(name),
    ensures
        decode_optional_message(s, at, name) == (value, at + optional_message(name, value).len()),
        value is Some ==> next_key(s, at) == Some(name) && is_at(s, at, ','),
{
    if let Some(v) = value {
        lemma_expect_key(s, at, name, encode_message(v));
        lemma_decode_message(s, at + key(name).len(), v);
    }
}

/// The decoder reads a field back that may be left out and holds a status.
pub proof fn lemma_optional_status(
    s: Seq<char>,
    at: int,
    name: Seq<char>,
    value: Option<StatusView>,
)
    requires
        starts_with(s, at, optional_status(name, value)),
        value is None ==> next_key(s, at) != Some(name),
    ensures
        decode_optional_status(s, at, name) == (value, at + optional_status(name, value).len()),
        value is Some ==> next_key(s, at) == Some(name) && is_at(s, at, ','),
{
    if let Some(v) = value {
        lemma_expect_key(s, at, name, encode_status(v));
        lemma_decode_status(s, at + key(name).len(), v);
    }
}

/// The decoder reads a field back that may be left out and holds a permission.
pub proof fn lemma_optional_permission(
    s: Seq<char>,
    at: int,
    name: Seq<char>,
    value: Option<Permission>,
)
    requires
        starts_with(s, at, optional_string(name, opt_permission(value))),
        value is None ==> next_key(s, at) != Some(name),
    ensures
        decode_optional_permission(s, at, name) == (
            value,
            at + optional_string(name, opt_permission(value)).len(),
        ),
        value is Some ==> next_key(s, at) == Some(name) && is_at(s, at, ','),
{
    if let Some(v) = value {
        lemma_expect_key(s, at, name, json_string(permission_name(v)));
        lemma_decode_permission(s, at + key(name).len(), v);
    }
}

/// The decoder reads a field back that may be left out and holds a test format.
pub proof fn lemma_optional_format(
    s: Seq<char>,
    at: int,
    name: Seq<char>,
    value: Option<TestFormat>,
)
    requires
        starts_with(s, at, optional_string(name, opt_format(value))),
        value is None ==> next_key(s, at) != Some(name),
    ensures
        decode_optional_format(s, at, name) == (
            value,
            at + optional_string(name, opt_format(value)).len(),
        ),
        value is Some ==> next_key(s, at) == Some(name) && is_at(s, at, ','),
{
    if let Some(v) = value {
        lemma_expect_key(s, at, name, json_string(format_name(v)));
        lemma_decode_format(s, at + key(name).len(), v);
    }
}

/// The decoder reads a field back that may be left out and holds a severity.
pub proof fn lemma_optional_severity(
    s: Seq<char>,
    at: int,
    name: Seq<char>,
    value: Option<Severity>,
)
    requires
        starts_with(s, at, optional_string(name, opt_severity(value))),
        value is None ==> next_key(s, at) != Some(name),
    ensures
        decode_optional_severity(s, at, name) == (
            value,
            at + optional_string(name, opt_severity(value)).len(),
        ),
        value is Some ==> next_key(s, at) == Some(name) && is_at(s, at, ','),
{
    if let Some(v) = value {
        lemma_expect_key(s, at, name, json_string(severity_name(v)));
        lemma_decode_severity(s, at + key(name).len(), v);
    }
}

/// No later field of an object starts at a closing brace.
pub proof fn lemma_no_key_at_brace(s: Seq<char>, at: int)
    requires
        is_at(s, at, '}'),
    ensures
        next_key(s, at) is None,
{
}

/// The names of the fields that may be left out differ from the names of
/// the fields that may follow them.
pub proof fn lemma_field_names()
    ensures
        "hidden"@ != "permission"@,
        "format"@ != "description"@,
        "format"@ != "channel"@,
        "description"@ != "channel"@,
        "column"@ != "text"@,
        "externalUrl"@ != "type"@,
        "externalUrl"@ != "rows"@,
        "externalUrl"@ != "columns"@,
        "type"@ != "rows"@,
        "type"@ != "columns"@,
        "rows"@ != "columns"@,
        "accepted"@ != "status"@,
{
    reveal_strlit("hidden");
    reveal_strlit("permission");
    reveal_strlit("format");
    reveal_strlit("description");
    reveal_strlit("channel");
    reveal_strlit("column");
    reveal_strlit("text");
    reveal_strlit("externalUrl");
    reveal_strlit("type");
    reveal_strlit("rows");
    reveal_strlit("columns");
    reveal_strlit("accepted");
    reveal_strlit("status");
    assert("hidden"@.len() == 6);
    assert("permission"@.len() == 10);
    assert("format"@.len() == 6);
    assert("description"@.len() == 11);
    assert("channel"@.len() == 7);
    assert("column"@.len() == 6);
    assert("text"@.len() == 4);
    assert("externalUrl"@.len() == 11);
    assert("type"@.len() == 4 && "type"@[0] == 't');
    assert("rows"@.len() == 4 && "rows"@[0] == 'r');
    assert("columns"@.len() == 7);
    assert("accepted"@.len() == 8);
    assert("status"@.len() == 6);
}

/// The decoder reads the fields of the event that opens a tab back.
pub proof fn lemma_decode_start_tab(
    s: Seq<char>,
    at: int,
    title: Seq<char>,
    hidden: Option<bool>,
    permission: Option<Permission>,
)
    requires
        starts_with(s, at, start_tab_fields(title, hidden, permission)),
        is_at(s, at + start_tab_fields(title, hidden, permission).len(), '}'),
    ensures
        decode_start_tab(s, at) == (
            CommandView::StartTab { title, hidden, permission },
            at + start_tab_fields(title, hidden, permission).len(),
        ),
{
    let f1 = field("title"@, json_string(title));
    let f2 = optional_bool("hidden"@, hidden);
    let f3 = optional_string("permission"@, opt_permission(permission));
    let at1 = at + f1.len();
    let at2 = at1 + f2.len();
    let at3 = at2 + f3.len();
    lemma_field_names();
    lemma_split(s, at, f1 + f2, f3);
    lemma_split(s, at, f1, f2);
    lemma_no_key_at_brace(s, at3);
    lemma_optional_permission(s, at2, "permission"@, permission);
    lemma_optional_bool(s, at1, "hidden"@, hidden);
    lemma_expect_key(s, at, "title"@, json_string(title));
    lemma_decode_string(s, at + key("title"@).len(), title);
}

/// The decoder reads the fields of the event that opens a test back.
pub proof fn lemma_decode_start_test(
    s: Seq<char>,
    at: int,
    expected: Seq<char>,
    format: Option<TestFormat>,
    description: Option<MessageView>,
    channel: Option<Seq<char>>,
)
    requires
        starts_with(s, at, start_test_fields(expected, format, description, channel)),
        is_at(s, at + start_test_fields(expected, format, description, channel).len(), '}'),
    ensures
        decode_start_test(s, at) == (
            CommandView::StartTest { expected, format, description, channel },
            at + start_test_fields(expected, format, description, channel).len(),
        ),
{
    let f1 = field("expected"@, json_string(expected));
    let f2 = optional_string("format"@, opt_format(format));
    let f3 = optional_message("description"@, description);
    let f4 = optional_string("channel"@, channel);
    let at1 = at + f1.len();
    let at2 = at1 + f2.len();
    let at3 = at2 + f3.len();
    let at4 = at3 + f4.len();
    lemma_field_names();
    lemma_split(s, at, f1 + f2 + f3, f4);
    lemma_split(s, at, f1 + f2, f3);
    lemma_split(s, at, f1, f2);
    lemma_no_key_at_brace(s, at4);
    lemma_optional_string(s, at3, "channel"@, channel);
    lemma_optional_message(s, at2, "description"@, description);
    lemma_optional_format(s, at1, "format"@, format);
    lemma_expect_key(s, at, "expected"@, json_string(expected));
    lemma_decode_string(s, at + key("expected"@).len(), expected);
}

/// The decoder reads the fields of the event that annotates the submitted
/// code back.
pub proof fn lemma_decode_annotate_code(
    s: Seq<char>,
    at: int,
    row: u16,
    column: Option<u16>,
    text: Seq<char>,
    external_url: Option<Seq<char>>,
    type_: Option<Severity>,
    rows: Option<u16>,
    columns: Option<u16>,
)
    requires
        starts_with(
            s,
            at,
            annotate_code_fields(row, column, text, external_url, type_, rows, columns),
        ),
        is_at(
            s,
            at + annotate_code_fields(row, column, text, external_url, type_, rows, columns).len(),
            '}',
        ),
    ensures
        decode_annotate_code(s, at) == (
            CommandView::AnnotateCode { row, column, text, external_url, type_, rows, columns },
            at + annotate_code_fields(row, column, text, external_url, type_, rows, columns).len(),
        ),
{
    let f1 = field("row"@, decimal(row as nat));
    let f2 = optional_number("column"@, column);
    let f3 = field("text"@, json_string(text));
    let f4 = optional_string("externalUrl"@, external_url);
    let f5 = optional_string("type"@, opt_severity(type_));
    let f6 = optional_number("rows"@, rows);
    let f7 = optional_number("columns"@, columns);
    let at1 = at + f1.len();
    let at2 = at1 + f2.len();
    let at3 = at2 + f3.len();
    let at4 = at3 + f4.len();
    let at5 = at4 + f5.len();
    let at6 = at5 + f6.len();
    let at7 = at6 + f7.len();
    lemma_field_names();
    lemma_split(s, at, f1 + f2 + f3 + f4 + f5 + f6, f7);
    lemma_split(s, at, f1 + f2 + f3 + f4 + f5, f6);
    lemma_split(s, at, f1 + f2 + f3 + f4, f5);
    lemma_split(s, at, f1 + f2 + f3, f4);
    lemma_split(s, at, f1 + f2, f3);
    lemma_split(s, at, f1, f2);
    lemma_no_key_at_brace(s, at7);
    lemma_optional_number(s, at6, "columns"@, columns);
    assert(value_ends(s, at6));
    lemma_optional_number(s, at5, "rows"@, rows);
    lemma_optional_severity(s, at4, "type"@, type_);
    lemma_optional_string(s, at3, "externalUrl"@, external_url);
    lemma_expect_key(s, at2, "text"@, json_string(text));
    lemma_decode_string(s, at2 + key("text"@).len(), text);
    assert(value_ends(s, at2));
    lemma_optional_number(s, at1, "column"@, column);
    assert(value_ends(s, at1));
    lemma_expect_key(s, at, "row"@, decimal(row as nat));
    lemma_decode_number(s, at + key("row"@).len(), row);
}

/// The decoder reads the fields of the event that closes a test back.
pub proof fn lemma_decode_close_test(
    s: Seq<char>,
    at: int,
    generated: Seq<char>,
    accepted: Option<bool>,
    status: StatusView,
)
    requires
        starts_with(s, at, close_test_fields(generated, accepted, status)),
    ensures
        decode_close_test(s, at) == (
            CommandView::CloseTest { generated, accepted, status },
            at + close_test_fields(generated, accepted, status).len(),
        ),
{
    let f1 = field("generated"@, json_string(generated));
    let f2 = optional_bool("accepted"@, accepted);
    let f3 = field("status"@, encode_status(status));
    let at1 = at + f1.len();
    let at2 = at1 + f2.len();
    lemma_field_names();
    lemma_split(s, at, f1 + f2, f3);
    lemma_split(s, at, f1, f2);
    lemma_expect_key(s, at2, "status"@, encode_status(status));
    lemma_decode_status(s, at2 + key("status"@).len(), status);
    lemma_optional_bool(s, at1, "accepted"@, accepted);
    lemma_expect_key(s, at, "generated"@, json_string(generated));
    lemma_decode_string(s, at + key("generated"@).len(), generated);
}

/// The decoder reads the fields of the event that closes a judgement back.
pub proof fn lemma_decode_close_judgement(
    s: Seq<char>,
    at: int,
    accepted: Option<bool>,
    status: Option<StatusView>,
)
    requires
        starts_with(s, at, close_judgement_fields(accepted, status)),
        is_at(s, at + close_judgement_fields(accepted, status).len(), '}'),
    ensures
        decode_close_judgement(s, at) == (
            CommandView::CloseJudgement { accepted, status },
            at + close_judgement_fields(accepted, status).len(),
        ),
{
    let f1 = optional_bool("accepted"@, accepted);
    let f2 = optional_status("status"@, status);
    let at1 = at + f1.len();
    let at2 = at1 + f2.len();
    lemma_field_names();
    lemma_split(s, at, f1, f2);
    lemma_no_key_at_brace(s, at2);
    lemma_optional_status(s, at1, "status"@, status);
    lemma_optional_bool(s, at, "accepted"@, accepted);
}

/// The wire names of the events differ from one another.
pub proof fn lemma_command_names()
    ensures
        "start-judgement"@.len() == 15 && "start-judgement"@[0] == 's',
        "start-tab"@.len() == 9 && "start-tab"@[0] == 's',
        "start-context"@.len() == 13 && "start-context"@[0] == 's',
        "start-testcase"@.len() == 14 && "start-testcase"@[0] == 's',
        "start-test"@.len() == 10 && "start-test"@[0] == 's',
        "append-message"@.len() == 14 && "append-message"@[0] == 'a',
        "annotate-code"@.len() == 13 && "annotate-code"@[0] == 'a',
        "escalate-status"@.len() == 15 && "escalate-status"@[0] == 'e',
        "close-test"@.len() == 10 && "close-test"@[0] == 'c',
        "close-testcase"@.len() == 14 && "close-testcase"@[0] == 'c',
        "close-context"@.len() == 13 && "close-context"@[0] == 'c',
        "close-tab"@.len() == 9 && "close-tab"@[0] == 'c',
        "close-judgement"@.len() == 15 && "close-judgement"@[0] == 'c',
{
    reveal_strlit("start-judgement");
    reveal_strlit("start-tab");
    reveal_strlit("start-context");
    reveal_strlit("start-testcase");
    reveal_strlit("start-test");
    reveal_strlit("append-message");
    reveal_strlit("annotate-code");
    reveal_strlit("escalate-status");
    reveal_strlit("close-test");
    reveal_strlit("close-testcase");
    reveal_strlit("close-context");
    reveal_strlit("close-tab");
    reveal_strlit("close-judgement");
}

/// The decoder reads the fields of the event that opens a judgement back.
proof fn lemma_fields_start_judgement(s: Seq<char>, at: int, command: CommandView)
    requires
        command is StartJudgement,
        starts_with(s, at, fields(command)),
        is_at(s, at + fields(command).len(), '}'),
    ensures
        decode_fields(s, at, command_name(command)) == (command, at + fields(command).len()),
{
    reveal(fields);
    reveal(decode_fields);
    lemma_command_names();
}

/// The decoder reads the fields of the event that opens a tab back.
proof fn lemma_fields_start_tab(s: Seq<char>, at: int, command: CommandView)
    requires
        command is StartTab,
        starts_with(s, at, fields(command)),
        is_at(s, at + fields(command).len(), '}'),
    ensures
        decode_fields(s, at, command_name(command)) == (command, at + fields(command).len()),
{
    reveal(fields);
    reveal(decode_fields);
    lemma_command_names();
    if let CommandView::StartTab { title, hidden, permission } = command {
        assert(decode_fields(s, at, command_name(command)) == decode_start_tab(s, at));
        lemma_decode_start_tab(s, at, title, hidden, permission);
    }
}

/// The decoder reads the fields of the event that opens a context back.
proof fn lemma_fields_start_context(s: Seq<char>, at: int, command: CommandView)
    requires
        command is StartContext,
        starts_with(s, at, fields(command)),
        is_at(s, at + fields(command).len(), '}'),
    ensures
        decode_fields(s, at, command_name(command)) == (command, at + fields(command).len()),
{
    reveal(fields);
    reveal(decode_fields);
    lemma_command_names();
    if let CommandView::StartContext { description } = command {
        let read = decode_optional_message(s, at, "description"@);
        assert(decode_fields(s, at, command_name(command)).1 == read.1);
        lemma_no_key_at_brace(s, at + fields(command).len());
        lemma_optional_message(s, at, "description"@, description);
    }
}

/// The decoder reads the fields of the event that opens a testcase back.
proof fn lemma_fields_start_testcase(s: Seq<char>, at: int, command: CommandView)
    requires
        command is StartTestcase,
        starts_with(s, at, fields(command)),
        is_at(s, at + fields(command).len(), '}'),
    ensures
        decode_fields(s, at, command_name(command)) == (command, at + fields(command).len()),
{
    reveal(fields);
    reveal(decode_fields);
    lemma_command_names();
    if let CommandView::StartTestcase { description } = command {
        let read = decode_message(s, expect_key(s, at, "description"@));
        assert(decode_fields(s, at, command_name(command)).1 == read.1);
        lemma_expect_key(s, at, "description"@, encode_message(description));
        lemma_decode_message(s, at + key("description"@).len(), description);
    }
}

/// The decoder reads the fields of the event that opens a test back.
proof fn lemma_fields_start_test(s: Seq<char>, at: int, command: CommandView)
    requires
        command is StartTest,
        starts_with(s, at, fields(command)),
        is_at(s, at + fields(command).len(), '}'),
    ensures
        decode_fields(s, at, command_name(command)) == (command, at + fields(command).len()),
{
    reveal(fields);
    reveal(decode_fields);
    lemma_command_names();
    if let CommandView::StartTest { expected, format, description, channel } = command {
        assert(decode_fields(s, at, command_name(command)) == decode_start_test(s, at));
        lemma_decode_start_test(s, at, expected, format, description, channel);
    }
}

/// The decoder reads the fields of the event that appends a message back.
proof fn lemma_fields_append_message(s: Seq<char>, at: int, command: CommandView)
    requires
        command is AppendMessage,
        starts_with(s, at, fields(command)),
        is_at(s, at + fields(command).len(), '}'),
    ensures
        decode_fields(s, at, command_name(command)) == (command, at + fields(command).len()),
{
    reveal(fields);
    reveal(decode_fields);
    lemma_command_names();
    if let CommandView::AppendMessage { message } = command {
        let read = decode_message(s, expect_key(s, at, "message"@));
        assert(decode_fields(s, at, command_name(command)).1 == read.1);
        lemma_expect_key(s, at, "message"@, encode_message(message));
        lemma_decode_message(s, at + key("message"@).len(), message);
    }
}

/// The decoder reads the fields of the event that annotates the submitted code back.
proof fn lemma_fields_annotate_code(s: Seq<char>, at: int, command: CommandView)
    requires
        command is AnnotateCode,
        starts_with(s, at, fields(command)),
        is_at(s, at + fields(command).len(), '}'),
    ensures
        decode_fields(s, at, command_name(command)) == (command, at + fields(command).len()),
{
    reveal(fields);
    reveal(decode_fields);
    lemma_command_names();
    if let CommandView::AnnotateCode { row, column, text, external_url, type_, rows, columns } = command {
        assert(decode_fields(s, at, command_name(command)) == decode_annotate_code(s, at));
        lemma_decode_annotate_code(s, at, row, column, text, external_url, type_, rows, columns);
    }
}

/// The decoder reads the fields of the event that escalates the status back.
proof fn lemma_fields_escalate_status(s: Seq<char>, at: int, command: CommandView)
    requires
        command is EscalateStatus,
        starts_with(s, at, fields(command)),
        is_at(s, at + fields(command).len(), '}'),
    ensures
        decode_fields(s, at, command_name(command)) == (command, at + fields(command).len()),
{
    reveal(fields);
    reveal(decode_fields);
    lemma_command_names();
    if let CommandView::EscalateStatus { status } = command {
        let read = decode_status(s, expect_key(s, at, "status"@));
        assert(decode_fields(s, at, command_name(command)).1 == read.1);
        lemma_expect_key(s, at, "status"@, encode_status(status));
        lemma_decode_status(s, at + key("status"@).len(), status);
    }
}

/// The decoder reads the fields of the event that closes a test back.
proof fn lemma_fields_close_test(s: Seq<char>, at: int, command: CommandView)
    requires
        command is CloseTest,
        starts_with(s, at, fields(command)),
        is_at(s, at + fields(command).len(), '}'),
    ensures
        decode_fields(s, at, command_name(command)) == (command, at + fields(command).len()),
{
    reveal(fields);
    reveal(decode_fields);
    lemma_command_names();
    if let CommandView::CloseTest { generated, accepted, status } = command {
        assert(decode_fields(s, at, command_name(command)) == decode_close_test(s, at));
        lemma_decode_close_test(s, at, generated, accepted, status);
    }
}

/// The decoder reads the fields of the event that closes a testcase back.
proof fn lemma_fields_close_testcase(s: Seq<char>, at: int, command: CommandView)
    requires
        command is CloseTestcase,
        starts_with(s, at, fields(command)),
        is_at(s, at + fields(command).len(), '}'),
    ensures
        decode_fields(s, at, command_name(command)) == (command, at + fields(command).len()),
{
    reveal(fields);
    reveal(decode_fields);
    lemma_command_names();
    if let CommandView::CloseTestcase { accepted } = command {
        let read = decode_optional_bool(s, at, "accepted"@);
        assert(decode_fields(s, at, command_name(command)).1 == read.1);
        lemma_no_key_at_brace(s, at + fields(command).len());
        lemma_optional_bool(s, at, "accepted"@, accepted);
    }
}

/// The decoder reads the fields of the event that closes a context back.
proof fn lemma_fields_close_context(s: Seq<char>, at: int, command: CommandView)
    requires
        command is CloseContext,
        starts_with(s, at, fields(command)),
        is_at(s, at + fields(command).len(), '}'),
    ensures
        decode_fields(s, at, command_name(command)) == (command, at + fields(command).len()),
{
    reveal(fields);
    reveal(decode_fields);
    lemma_command_names();
    if let CommandView::CloseContext { accepted } = command {
        let read = decode_optional_bool(s, at, "accepted"@);
        assert(decode_fields(s, at, command_name(command)).1 == read.1);
        lemma_no_key_at_brace(s, at + fields(command).len());
        lemma_optional_bool(s, at, "accepted"@, accepted);
    }
}

/// The decoder reads the fields of the event that closes a tab back.
proof fn lemma_fields_close_tab(s: Seq<char>, at: int, command: CommandView)
    requires
        command is CloseTab,
        starts_with(s, at, fields(command)),
        is_at(s, at + fields(command).len(), '}'),
    ensures
        decode_fields(s, at, command_name(command)) == (command, at + fields(command).len()),
{
    reveal(fields);
    reveal(decode_fields);
    lemma_command_names();
    if let CommandView::CloseTab { badge_count } = command {
        let read = decode_optional_number(s, at, "badgeCount"@);
        assert(decode_fields(s, at, command_name(command)).1 == read.1);
        lemma_no_key_at_brace(s, at + fields(command).len());
        lemma_optional_number(s, at, "badgeCount"@, badge_count);
    }
}

/// The decoder reads the fields of the event that closes a judgement back.
proof fn lemma_fields_close_judgement(s: Seq<char>, at: int, command: CommandView)
    requires
        command is CloseJudgement,
        starts_with(s, at, fields(command)),
        is_at(s, at + fields(command).len(), '}'),
    ensures
        decode_fields(s, at, command_name(command)) == (command, at + fields(command).len()),
{
    reveal(fields);
    reveal(decode_fields);
    lemma_command_names();
    if let CommandView::CloseJudgement { accepted, status } = command {
        assert(decode_fields(s, at, command_name(command)) == decode_close_judgement(s, at));
        lemma_decode_close_judgement(s, at, accepted, status);
    }
}

/// The decoder reads the fields of an event back, where the closing brace of
/// the event follows them.
pub proof fn lemma_decode_fields(s: Seq<char>, at: int, command: CommandView)
    requires
        starts_with(s, at, fields(command)),
        is_at(s, at + fields(command).len(), '}'),
    ensures
        decode_fields(s, at, command_name(command)) == (command, at + fields(command).len()),
{
    match command {
        CommandView::StartJudgement => {
            lemma_fields_start_judgement(s, at, command);
        },
        CommandView::StartTab { .. } => {
            lemma_fields_start_tab(s, at, command);
        },
        CommandView::StartContext { .. } => {
            lemma_fields_start_context(s, at, command);
        },
        CommandView::StartTestcase { .. } => {
            lemma_fields_start_testcase(s, at, command);
        },
        CommandView::StartTest { .. } => {
            lemma_fields_start_test(s, at, command);
        },
        CommandView::AppendMessage { .. } => {
            lemma_fields_append_message(s, at, command);
        },
        CommandView::AnnotateCode { .. } => {
            lemma_fields_annotate_code(s, at, command);
        },
        CommandView::EscalateStatus { .. } => {
            lemma_fields_escalate_status(s, at, command);
        },
        CommandView::CloseTest { .. } => {
            lemma_fields_close_test(s, at, command);
        },
        CommandView::CloseTestcase { .. } => {
            lemma_fields_close_testcase(s, at, command);
        },
        CommandView::CloseContext { .. } => {
            lemma_fields_close_context(s, at, command);
        },
        CommandView::CloseTab { .. } => {
            lemma_fields_close_tab(s, at, command);
        },
        CommandView::CloseJudgement { .. } => {
            lemma_fields_close_judgement(s, at, command);
        },
    }
}

/// The decoder reads an event back wherever its wire form stands.
pub proof fn lemma_decode_command(s: Seq<char>, at: int, command: CommandView)
    requires
        starts_with(s, at, encode_command(command)),
    ensures
        decode_command(s, at) == (command, at + encode_command(command).len()),
        encode_command(command).len() > 0,
{
    reveal_strlit("{");
    reveal_strlit("}");
    let name = json_string(command_name(command));
    let head = "{"@ + first_field("command"@, name);
    let body = fields(command);
    lemma_split(s, at, head + body, "}"@);
    lemma_split(s, at, head, body);
    lemma_expect_first_key(s, at, "command"@, name);
    lemma_decode_string(s, at + 1 + first_key("command"@).len(), command_name(command));
    lemma_char_at(s, at + head.len() + body.len(), "}"@, 0);
    lemma_decode_fields(s, at + head.len(), command);
}

/// An event survives the wire: the decoder reads the wire form of
/// every event back as that event.
pub proof fn lemma_round_trip(command: CommandView)
    ensures
        decoded(encode_command(command)) == Some(command),
{
    let s = encode_command(command);
    assert(s.subrange(0, s.len() as int) =~= s);
    lemma_decode_command(s, 0, command);
}

/// No two events share a wire form.
pub proof fn lemma_encoding_is_injective(first: CommandView, second: CommandView)
    requires
        encode_command(first) == encode_command(second),
    ensures
        first == second,
{
    lemma_round_trip(first);
    lemma_round_trip(second);
}

/// The decoder reads a trace back where its wire form fills the rest of the
/// text.
pub proof fn lemma_decode_trace(s: Seq<char>, at: int, trace: Seq<CommandView>)
    requires
        starts_with(s, at, encode_trace(trace)),
        at + encode_trace(trace).len() == s.len(),
    ensures
        decode_trace(s, at) == Some(trace),
    decreases trace.len(),
{
    reveal_strlit("\n");
    if trace.len() > 0 {
        let line = encode_command(trace[0]);
        let rest = encode_trace(trace.drop_first());
        lemma_split(s, at, line + "\n"@, rest);
        lemma_split(s, at, line, "\n"@);
        lemma_decode_command(s, at, trace[0]);
        lemma_char_at(s, at + line.len(), "\n"@, 0);
        lemma_decode_trace(s, at + line.len() + 1, trace.drop_first());
        assert(seq![trace[0]] + trace.drop_first() =~= trace);
    }
}

/// A trace survives the wire: the decoder reads the wire form of every
/// trace back as that trace, so encoding, decoding and encoding again gives
/// the first encoding.
pub proof fn lemma_trace_round_trip(trace: Seq<CommandView>)
    ensures
        decode_trace(encode_trace(trace), 0) == Some(trace),
{
    let s = encode_trace(trace);
    assert(s.subrange(0, s.len() as int) =~= s);
    lemma_decode_trace(s, 0, trace);
}

} // verus!
