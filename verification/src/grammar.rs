//! The small grammars that are read from text directly: words, the ports of
//! an `EXPOSE` argument, and the comment lines of a source text.

use vstd::prelude::*;
use crate::config::texts;
use crate::manifest::{exposed, ExposedPort, ExposedPortView};
use crate::text::is_white_space;

verus! {

/// A class of characters.
#[derive(Debug, PartialEq, Eq, Clone, Copy)]
pub enum CharClass {
    /// White space of any kind.
    Blank,
    /// A space or a tab.
    Indent,
    /// A line feed or a carriage return.
    LineBreak,
    /// A decimal digit.
    Digit,
}

/// Whether `c` belongs to `class`.
pub open spec fn in_class(c: char, class: CharClass) -> bool {
    match class {
        CharClass::Blank => is_white_space(c),
        CharClass::Indent => c == ' ' || c == '\t',
        CharClass::LineBreak => c == '\n' || c == '\r',
        CharClass::Digit => '0' as u32 <= c as u32 <= '9' as u32,
    }
}

/// The length of the longest prefix of `s` whose characters all belong to
/// `class` (`member` true) or all do not (`member` false).
pub open spec fn run(s: Seq<char>, class: CharClass, member: bool) -> nat
    decreases s.len(),
{
    if s.len() > 0 && in_class(s[0], class) == member {
        1 + run(s.drop_first(), class, member)
    } else {
        0
    }
}

/// A run is no longer than the text it starts.
pub proof fn lemma_run_bound(s: Seq<char>, class: CharClass, member: bool)
    ensures
        run(s, class, member) <= s.len(),
    decreases s.len(),
{
    if s.len() > 0 && in_class(s[0], class) == member {
        lemma_run_bound(s.drop_first(), class, member);
    }
}

/// Every character of a run is of the run's kind, and the character after it,
/// if there is one, is not.
pub proof fn lemma_run_spans(s: Seq<char>, class: CharClass, member: bool)
    ensures
        forall|i: int| 0 <= i < run(s, class, member) ==> in_class(#[trigger] s[i], class) == member,
        run(s, class, member) < s.len() ==> in_class(s[run(s, class, member) as int], class)
            != member,
    decreases s.len(),
{
    lemma_run_bound(s, class, member);
    if s.len() > 0 && in_class(s[0], class) == member {
        let rest = s.drop_first();
        lemma_run_spans(rest, class, member);
        lemma_run_bound(rest, class, member);
        assert forall|i: int| 0 <= i < run(s, class, member) implies in_class(
            #[trigger] s[i],
            class,
        ) == member by {
            if i > 0 {
                assert(s[i] == rest[i - 1]);
            }
        }
        if run(s, class, member) < s.len() {
            assert(s[run(s, class, member) as int] == rest[run(rest, class, member) as int]);
        }
    }
}

/// The words of a text: its longest pieces without white space, in order.
pub open spec fn words(s: Seq<char>) -> Seq<Seq<char>>
    decreases s.len(),
    via words_decreases
{
    let rest = s.skip(run(s, CharClass::Blank, true) as int);
    let n = run(rest, CharClass::Blank, false);
    if n == 0 {
        Seq::empty()
    } else {
        seq![rest.take(n as int)] + words(rest.skip(n as int))
    }
}

#[via_fn]
proof fn words_decreases(s: Seq<char>) {
    let lead = run(s, CharClass::Blank, true);
    lemma_run_bound(s, CharClass::Blank, true);
    let rest = s.skip(lead as int);
    lemma_run_bound(rest, CharClass::Blank, false);
}

/// The number that a sequence of decimal digits writes.
pub open spec fn numeral(digits: Seq<char>) -> nat
    decreases digits.len(),
{
    if digits.len() == 0 {
        0
    } else {
        numeral(digits.drop_last()) * 10 + (digits.last() as u32 - '0' as u32) as nat
    }
}

/// The port that one word of an `EXPOSE` argument declares: a decimal number
/// up to 65535, alone or followed by `/` and a protocol that is not empty.
/// Any other word declares nothing.
pub open spec fn declaration(word: Seq<char>) -> Option<ExposedPortView> {
    let n = run(word, CharClass::Digit, true) as int;
    let number = numeral(word.take(n));
    if n == 0 || number > 65535 {
        None
    } else if n == word.len() {
        Some(ExposedPortView { port: number as u16, protocol: None })
    } else if word[n] == '/' && n + 1 < word.len() {
        Some(ExposedPortView { port: number as u16, protocol: Some(word.skip(n + 1)) })
    } else {
        None
    }
}

/// The ports that a list of words declares, in order.
pub open spec fn declarations(list: Seq<Seq<char>>) -> Seq<ExposedPortView>
    decreases list.len(),
{
    if list.len() == 0 {
        Seq::empty()
    } else {
        declarations(list.drop_last()) + match declaration(list.last()) {
            Some(port) => seq![port],
            None => Seq::empty(),
        }
    }
}

/// The ports that the argument of an `EXPOSE` instruction declares.
pub open spec fn expose_argument(argument: Seq<char>) -> Seq<ExposedPortView> {
    declarations(words(argument))
}

/// The comment that a line holds: the line from its `#` on, where nothing
/// but spaces and tabs stands before the `#`.
pub open spec fn comment_of(line: Seq<char>) -> Option<Seq<char>> {
    let body = line.skip(run(line, CharClass::Indent, true) as int);
    if body.len() > 0 && body[0] == '#' {
        Some(body)
    } else {
        None
    }
}

/// The comments of a source text, line by line. A line ends at a line feed
/// or a carriage return.
pub open spec fn comments_in(s: Seq<char>) -> Seq<Seq<char>>
    decreases s.len(),
{
    if s.len() == 0 {
        Seq::empty()
    } else {
        let n = run(s, CharClass::LineBreak, false) as int;
        let first = match comment_of(s.take(n)) {
            Some(comment) => seq![comment],
            None => Seq::empty(),
        };
        if n >= s.len() {
            first
        } else {
            first + comments_in(s.skip(n + 1))
        }
    }
}

/// The characters of a text.
pub fn chars_of(text: &str) -> (r: Vec<char>)
    ensures
        r@ == text@,
{
    let mut r: Vec<char> = Vec::new();
    for c in it: text.chars()
        invariant
            it.seq() == text@,
            r@ == it.seq().take(it.index() as int),
    {
        r.push(c);
        assert(it.seq().take(it.index() + 1) =~= it.seq().take(it.index() as int).push(c));
    }
    assert(r@ =~= text@);
    r
}

/// Whether `c` belongs to `class`.
pub fn is_in_class(c: char, class: CharClass) -> (r: bool)
    ensures
        r == in_class(c, class),
{
    let u = c as u32;
    match class {
        CharClass::Blank => (0x09 <= u && u <= 0x0D) || u == 0x20 || u == 0x85 || u == 0xA0 || u
            == 0x1680 || (0x2000 <= u && u <= 0x200A) || u == 0x2028 || u == 0x2029 || u == 0x202F
            || u == 0x205F || u == 0x3000,
        CharClass::Indent => c == ' ' || c == '\t',
        CharClass::LineBreak => c == '\n' || c == '\r',
        CharClass::Digit => '0' as u32 <= u && u <= '9' as u32,
    }
}

/// Skips the run that starts at `from` and ends before `to` at the latest:
/// returns the position after it.
pub(crate) fn skip_run(
    chars: &Vec<char>,
    from: usize,
    to: usize,
    class: CharClass,
    member: bool,
) -> (r:
    usize)
    requires
        from <= to <= chars.len(),
    ensures
        from <= r <= to,
        r - from == run(chars@.subrange(from as int, to as int), class, member),
{
    let mut i: usize = from;
    while i < to && is_in_class(chars[i], class) == member
        invariant
            from <= i <= to <= chars.len(),
            run(chars@.subrange(from as int, to as int), class, member) == (i - from) + run(
                chars@.subrange(i as int, to as int),
                class,
                member,
            ),
        decreases to - i,
    {
        proof {
            let rest = chars@.subrange(i as int, to as int);
            assert(rest[0] == chars@[i as int]);
            assert(rest.drop_first() =~= chars@.subrange(i + 1, to as int));
        }
        i += 1;
    }
    proof {
        let rest = chars@.subrange(i as int, to as int);
        if i < to {
            assert(rest[0] == chars@[i as int]);
        }
    }
    i
}

/// A numeral does not shrink when digits are added at its end.
pub proof fn lemma_numeral_grows(digits: Seq<char>, shorter: int, longer: int)
    requires
        0 <= shorter <= longer <= digits.len(),
        forall|i: int| 0 <= i < longer ==> in_class(#[trigger] digits[i], CharClass::Digit),
    ensures
        numeral(digits.take(shorter)) <= numeral(digits.take(longer)),
    decreases longer - shorter,
{
    if shorter < longer {
        lemma_numeral_grows(digits, shorter, longer - 1);
        let whole = digits.take(longer);
        assert(whole.drop_last() =~= digits.take(longer - 1));
        assert(whole.last() == digits[longer - 1]);
    }
}

/// Reads the number that the digits at `from..end` write, if it is 65535 at
/// most.
pub(crate) fn read_numeral(chars: &Vec<char>, from: usize, end: usize) -> (r: Option<u16>)
    requires
        from <= end <= chars.len(),
        forall|i: int| from <= i < end ==> in_class(#[trigger] chars@[i], CharClass::Digit),
    ensures
        match r {
            Some(value) => numeral(chars@.subrange(from as int, end as int)) == value,
            None => numeral(chars@.subrange(from as int, end as int)) > 65535,
        },
{
    let ghost digits = chars@.subrange(from as int, end as int);
    let mut value: u32 = 0;
    let mut k: usize = from;
    assert(digits.take(0) =~= Seq::<char>::empty());
    while k < end
        invariant
            from <= k <= end <= chars.len(),
            digits == chars@.subrange(from as int, end as int),
            forall|i: int| 0 <= i < digits.len() ==> in_class(#[trigger] digits[i], CharClass::Digit),
            value == numeral(digits.take(k - from)),
            value <= 65535,
        decreases end - k,
    {
        proof {
            let next = digits.take(k - from + 1);
            assert(next.drop_last() =~= digits.take(k - from));
            assert(next.last() == digits[k - from]);
            assert(digits[k - from] == chars@[k as int]);
            assert(in_class(digits[k - from], CharClass::Digit));
        }
        let d: u32 = chars[k] as u32 - '0' as u32;
        value = value * 10 + d;
        k += 1;
        if value > 65535 {
            proof {
                lemma_numeral_grows(digits, k - from, digits.len() as int);
                assert(digits.take(digits.len() as int) =~= digits);
            }
            return None;
        }
    }
    assert(digits.take(k - from) =~= digits);
    Some(value as u16)
}

/// Reads the port that the word at `from..to` declares.
pub(crate) fn parse_declaration(
    text: &str,
    chars: &Vec<char>,
    from: usize,
    to: usize,
) -> (r: Option<
    ExposedPort,
>)
    requires
        chars@ == text@,
        from <= to <= chars.len(),
    ensures
        match r {
            Some(port) => declaration(chars@.subrange(from as int, to as int)) == Some(port@),
            None => declaration(chars@.subrange(from as int, to as int)) is None,
        },
{
    let ghost word = chars@.subrange(from as int, to as int);
    let end = skip_run(chars, from, to, CharClass::Digit, true);
    proof {
        lemma_run_spans(word, CharClass::Digit, true);
        assert(word.take(end - from) =~= chars@.subrange(from as int, end as int));
        assert forall|i: int| from <= i < end implies in_class(
            #[trigger] chars@[i],
            CharClass::Digit,
        ) by {
            assert(chars@[i] == word[i - from]);
        }
    }
    if end == from {
        return None;
    }
    let port = match read_numeral(chars, from, end) {
        Some(port) => port,
        None => {
            return None;
        },
    };
    if end == to {
        Some(ExposedPort { port, protocol: None })
    } else if chars[end] == '/' && end + 1 < to {
        let protocol = text.substring_char(end + 1, to).to_owned();
        assert(word.skip(end - from + 1) =~= text@.subrange(end + 1, to as int));
        Some(ExposedPort { port, protocol: Some(protocol) })
    } else {
        None
    }
}

/// Reads the ports that the argument of an `EXPOSE` instruction declares:
/// each word of the argument that is a port number, alone or with a
/// protocol after a `/`.
pub fn parse_expose_argument(argument: &str) -> (r: Vec<ExposedPort>)
    ensures
        exposed(r@) == expose_argument(argument@),
{
    let chars = chars_of(argument);
    let len = chars.len();
    let ghost all = chars@;
    let ghost mut done: Seq<Seq<char>> = Seq::empty();
    let mut r: Vec<ExposedPort> = Vec::new();
    let mut i: usize = 0;
    assert(all.skip(0) =~= all);
    assert(exposed(r@) =~= declarations(done));
    loop
        invariant
            i <= len == chars.len(),
            all == chars@,
            chars@ == argument@,
            words(all) == done + words(all.skip(i as int)),
            exposed(r@) == declarations(done),
        ensures
            exposed(r@) == declarations(words(all)),
        decreases len - i,
    {
        let start = skip_run(&chars, i, len, CharClass::Blank, true);
        let end = skip_run(&chars, start, len, CharClass::Blank, false);
        let ghost word = all.subrange(start as int, end as int);
        proof {
            let rest = all.skip(i as int).skip(start - i);
            assert(all.subrange(i as int, len as int) =~= all.skip(i as int));
            assert(rest =~= all.skip(start as int));
            assert(all.subrange(start as int, len as int) =~= rest);
            assert(rest.take(end - start) =~= word);
            assert(rest.skip(end - start) =~= all.skip(end as int));
        }
        if end == start {
            assert(done + Seq::<Seq<char>>::empty() =~= done);
            break ;
        }
        let ghost so_far = exposed(r@);
        match parse_declaration(argument, &chars, start, end) {
            Some(port) => {
                r.push(port);
                assert(exposed(r@) =~= so_far + seq![port@]);
            },
            None => {
                assert(so_far + Seq::<ExposedPortView>::empty() =~= so_far);
            },
        }
        proof {
            assert(done.push(word).drop_last() =~= done);
            assert(done + (seq![word] + words(all.skip(end as int))) =~= done.push(word) + words(
                all.skip(end as int),
            ));
            done = done.push(word);
        }
        i = end;
    }
    r
}

/// Reads the comments of a source text: of each line that starts with a `#`
/// after spaces and tabs at most, the line from the `#` on.
pub fn comments_of(text: &str) -> (r: Vec<String>)
    ensures
        texts(r@) == comments_in(text@),
{
    let chars = chars_of(text);
    let len = chars.len();
    let ghost all = chars@;
    let mut r: Vec<String> = Vec::new();
    let mut i: usize = 0;
    assert(all.skip(0) =~= all);
    assert(texts(r@) + comments_in(all) =~= comments_in(all));
    while i < len
        invariant
            i <= len == chars.len(),
            all == chars@,
            chars@ == text@,
            comments_in(all) == texts(r@) + comments_in(all.skip(i as int)),
        decreases len - i,
    {
        let end = skip_run(&chars, i, len, CharClass::LineBreak, false);
        let body = skip_run(&chars, i, end, CharClass::Indent, true);
        let ghost rest = all.skip(i as int);
        let ghost line = all.subrange(i as int, end as int);
        let ghost so_far = texts(r@);
        proof {
            assert(all.subrange(i as int, len as int) =~= rest);
            assert(rest.take(end - i) =~= line);
            assert(line.skip(body - i) =~= all.subrange(body as int, end as int));
            if body < end {
                assert(all.subrange(body as int, end as int)[0] == chars@[body as int]);
            }
        }
        if body < end && chars[body] == '#' {
            r.push(text.substring_char(body, end).to_owned());
            assert(texts(r@) =~= so_far + seq![all.subrange(body as int, end as int)]);
        } else {
            assert(so_far + Seq::<Seq<char>>::empty() =~= so_far);
        }
        if end < len {
            assert(rest.skip(end - i + 1) =~= all.skip(end + 1));
            assert(texts(r@) + comments_in(all.skip(end + 1)) =~= so_far + comments_in(rest));
            i = end + 1;
        } else {
            assert(all.skip(len as int) =~= Seq::<char>::empty());
            assert(texts(r@) + comments_in(all.skip(len as int)) =~= so_far + comments_in(rest));
            i = len;
        }
    }
    assert(all.skip(len as int) =~= Seq::<char>::empty());
    assert(texts(r@) + comments_in(all.skip(len as int)) =~= texts(r@));
    r
}

} // verus!
