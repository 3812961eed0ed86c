//! Text handling on sequences of characters.

use vstd::prelude::*;
use vstd::utf8::{decode_utf8, valid_utf8};

verus! {

/// The characters of each text of a list.
pub open spec fn texts(list: Seq<String>) -> Seq<Seq<char>> {
    list.map_values(|text: String| text@)
}

/// A character with the Unicode property `White_Space`.
pub open spec fn white(c: char) -> bool {
    ||| '\u{9}' <= c <= '\u{d}'
    ||| c == '\u{20}'
    ||| c == '\u{85}'
    ||| c == '\u{a0}'
    ||| c == '\u{1680}'
    ||| '\u{2000}' <= c <= '\u{200a}'
    ||| c == '\u{2028}'
    ||| c == '\u{2029}'
    ||| c == '\u{202f}'
    ||| c == '\u{205f}'
    ||| c == '\u{3000}'
}

/// A whitespace character of ASCII: space, tab, line feed, form feed, carriage return.
pub open spec fn ascii_white(c: char) -> bool {
    c == ' ' || c == '\t' || c == '\n' || c == '\u{c}' || c == '\r'
}

/// A character of the Unicode category `Cc`.
pub open spec fn control(c: char) -> bool {
    c <= '\u{1f}' || '\u{7f}' <= c <= '\u{9f}'
}

/// A decimal digit of ASCII.
pub open spec fn digit(c: char) -> bool {
    '0' <= c <= '9'
}

/// A letter or digit of ASCII.
pub open spec fn alphanumeric(c: char) -> bool {
    digit(c) || 'a' <= c <= 'z' || 'A' <= c <= 'Z'
}

/// A lower-case hexadecimal digit.
pub open spec fn lower_hex(c: char) -> bool {
    digit(c) || 'a' <= c <= 'f'
}

/// The lower-case form of an ASCII capital; every other character stands for itself.
pub open spec fn lower(c: char) -> char {
    if 'A' <= c <= 'Z' {
        (c as u32 + 32) as char
    } else {
        c
    }
}

/// Every ASCII capital of `s` in lower case.
pub open spec fn lowered(s: Seq<char>) -> Seq<char> {
    s.map_values(|c: char| lower(c))
}

/// Every `from` of `s` replaced by `to`.
pub open spec fn replaced(s: Seq<char>, from: char, to: char) -> Seq<char> {
    s.map_values(|c: char| if c == from { to } else { c })
}

/// `s` without the characters equal to `c`.
pub open spec fn without(s: Seq<char>, c: char) -> Seq<char> {
    s.filter(|d: char| d != c)
}

/// `s` without its leading whitespace.
pub open spec fn trim_start(s: Seq<char>) -> Seq<char>
    decreases s.len(),
{
    if s.len() > 0 && white(s.first()) {
        trim_start(s.drop_first())
    } else {
        s
    }
}

/// `s` without its trailing whitespace.
pub open spec fn trim_end(s: Seq<char>) -> Seq<char>
    decreases s.len(),
{
    if s.len() > 0 && white(s.last()) {
        trim_end(s.drop_last())
    } else {
        s
    }
}

/// `s` without leading and trailing whitespace.
pub open spec fn trim(s: Seq<char>) -> Seq<char> {
    trim_end(trim_start(s))
}

/// The maximal runs of characters of `s` that are not separators.
pub open spec fn words_by(s: Seq<char>, separator: spec_fn(char) -> bool) -> Seq<Seq<char>>
    decreases s.len(),
{
    if s.len() == 0 {
        Seq::empty()
    } else {
        let before = words_by(s.drop_last(), separator);
        if separator(s.last()) {
            before
        } else if s.len() == 1 || separator(s[s.len() - 2]) {
            before.push(seq![s.last()])
        } else {
            before.drop_last().push(before.last().push(s.last()))
        }
    }
}

/// The words of `s`, separated by whitespace.
pub open spec fn words(s: Seq<char>) -> Seq<Seq<char>> {
    words_by(s, |c: char| white(c))
}

/// The first word of `s`, separated by ASCII whitespace; empty where there is none.
pub open spec fn first_ascii_word(s: Seq<char>) -> Seq<char> {
    let all = words_by(s, |c: char| ascii_white(c));
    if all.len() == 0 {
        Seq::empty()
    } else {
        all[0]
    }
}

/// The pieces of `s` between the occurrences of `separator`: always at least one.
pub open spec fn split(s: Seq<char>, separator: char) -> Seq<Seq<char>>
    decreases s.len(),
{
    if s.len() == 0 {
        seq![Seq::empty()]
    } else {
        let before = split(s.drop_last(), separator);
        if s.last() == separator {
            before.push(Seq::empty())
        } else {
            before.drop_last().push(before.last().push(s.last()))
        }
    }
}

/// How many characters precede the first `c` of `s`, or the length of `s` where there is none.
pub open spec fn before_first(s: Seq<char>, c: char) -> int
    decreases s.len(),
{
    if s.len() == 0 || s.first() == c {
        0
    } else {
        1 + before_first(s.drop_first(), c)
    }
}

/// `needle` stands in `s` at offset `at`.
pub open spec fn occurs_at(s: Seq<char>, needle: Seq<char>, at: int) -> bool {
    &&& 0 <= at
    &&& at + needle.len() <= s.len()
    &&& s.subrange(at, at + needle.len()) == needle
}

/// `needle` stands somewhere in `s`.
pub open spec fn contains(s: Seq<char>, needle: Seq<char>) -> bool {
    exists|at: int| occurs_at(s, needle, at)
}

/// The greatest offset up to `limit` at which `needle` stands in `s`.
pub open spec fn last_occurrence_to(s: Seq<char>, needle: Seq<char>, limit: int) -> Option<int>
    decreases limit + 1,
{
    if limit < 0 {
        None
    } else if occurs_at(s, needle, limit) {
        Some(limit)
    } else {
        last_occurrence_to(s, needle, limit - 1)
    }
}

/// The greatest offset at which `needle` stands in `s`.
pub open spec fn last_occurrence(s: Seq<char>, needle: Seq<char>) -> Option<int> {
    last_occurrence_to(s, needle, s.len() - needle.len())
}

/// `a` comes before `b` in the lexicographic order of code points.
pub open spec fn precedes(a: Seq<char>, b: Seq<char>) -> bool
    decreases a.len(),
{
    if b.len() == 0 {
        false
    } else if a.len() == 0 {
        true
    } else if a.first() == b.first() {
        precedes(a.drop_first(), b.drop_first())
    } else {
        a.first() < b.first()
    }
}

/// The decimal digits of `n`.
pub open spec fn decimal(n: nat) -> Seq<char>
    decreases n,
{
    if n < 10 {
        seq![(n + 48) as char]
    } else {
        decimal(n / 10).push((n % 10 + 48) as char)
    }
}

/// A text that `Debug` shows as it is, between double quotes.
pub open spec fn plain(s: Seq<char>) -> bool {
    forall|i: int| 0 <= i < s.len() ==> ' ' <= #[trigger] s[i] <= '~' && s[i] != '"' && s[i] != '\\'
}

/// What `Debug` shows of a text: the text between double quotes, with its special
/// characters escaped.
pub uninterp spec fn debug_text(s: Seq<char>) -> Seq<char>;

/// What decoding bytes as UTF-8 yields when malformed sequences become U+FFFD.
pub uninterp spec fn lossy_text(bytes: Seq<u8>) -> Seq<char>;

/// The text as it is shown in quotes.
pub open spec fn quoted(s: Seq<char>) -> Seq<char> {
    if plain(s) {
        seq!['"'] + s + seq!['"']
    } else {
        debug_text(s)
    }
}

/// The text that the bytes are taken for: what they encode where they are valid UTF-8.
pub open spec fn decoded(bytes: Seq<u8>) -> Seq<char> {
    if valid_utf8(bytes) {
        decode_utf8(bytes)
    } else {
        lossy_text(bytes)
    }
}

/// `String::push` appends one character.
pub assume_specification[ String::push ](text: &mut String, c: char)
    ensures
        final(text)@ == old(text)@.push(c),
;

/// `Debug` for `str`, through `format!`. The result is a function of the text; a text of
/// printable ASCII without a double quote or a backslash is only put between double quotes.
#[verifier::external_body]
pub(crate) fn debug_quoted(text: &str) -> (shown: String)
    ensures
        shown@ == debug_text(text@),
        plain(text@) ==> shown@ == seq!['"'] + text@ + seq!['"'],
{
    format!("{:?}", text)
}

/// `String::from_utf8_lossy`. The result is a function of the bytes; valid UTF-8 is decoded
/// as it is.
#[verifier::external_body]
pub(crate) fn decode_lossy(bytes: &[u8]) -> (text: String)
    ensures
        text@ == lossy_text(bytes@),
        valid_utf8(bytes@) ==> text@ == decode_utf8(bytes@),
{
    String::from_utf8_lossy(bytes).into_owned()
}

/// `String::from_utf8` decodes exactly the byte sequences that are valid UTF-8.
#[verifier::external_body]
pub(crate) fn decode_strict(bytes: Vec<u8>) -> (text: Option<String>)
    ensures
        text is Some <==> valid_utf8(bytes@),
        text matches Some(t) ==> t@ == decode_utf8(bytes@),
{
    String::from_utf8(bytes).ok()
}

/// Whether `c` is whitespace.
pub fn is_white(c: char) -> (result: bool)
    ensures
        result == white(c),
{
    ('\u{9}' <= c && c <= '\u{d}') || c == '\u{20}' || c == '\u{85}' || c == '\u{a0}' || c
        == '\u{1680}' || ('\u{2000}' <= c && c <= '\u{200a}') || c == '\u{2028}' || c == '\u{2029}'
        || c == '\u{202f}' || c == '\u{205f}' || c == '\u{3000}'
}

/// Whether `c` is ASCII whitespace.
pub fn is_ascii_white(c: char) -> (result: bool)
    ensures
        result == ascii_white(c),
{
    c == ' ' || c == '\t' || c == '\n' || c == '\u{c}' || c == '\r'
}

/// Whether `c` is a control character.
pub fn is_control(c: char) -> (result: bool)
    ensures
        result == control(c),
{
    c <= '\u{1f}' || ('\u{7f}' <= c && c <= '\u{9f}')
}

/// Whether `c` is a decimal digit of ASCII.
pub fn is_digit(c: char) -> (result: bool)
    ensures
        result == digit(c),
{
    '0' <= c && c <= '9'
}

/// Whether `c` is a letter or digit of ASCII.
pub fn is_alphanumeric(c: char) -> (result: bool)
    ensures
        result == alphanumeric(c),
{
    is_digit(c) || ('a' <= c && c <= 'z') || ('A' <= c && c <= 'Z')
}

/// The lower-case form of an ASCII capital, else the character itself.
pub fn to_lower(c: char) -> (result: char)
    ensures
        result == lower(c),
{
    if 'A' <= c && c <= 'Z' {
        (c as u8 + 32) as char
    } else {
        c
    }
}

/// The characters of `text`, in order.
pub fn chars_of(text: &str) -> (chars: Vec<char>)
    ensures
        chars@ == text@,
{
    let mut chars: Vec<char> = Vec::new();
    for c in it: text.chars()
        invariant
            chars@ == text@.take(it.index()),
            it.seq() == text@,
    {
        chars.push(c);
        assert(chars@ == text@.take(it.index() + 1));
    }
    assert(text@.take(text@.len() as int) == text@);
    chars
}

/// The text made of the characters from `from` up to `to`.
pub fn slice_of(chars: &Vec<char>, from: usize, to: usize) -> (text: String)
    requires
        from <= to <= chars@.len(),
    ensures
        text@ == chars@.subrange(from as int, to as int),
{
    let mut text = String::new();
    let mut i: usize = from;
    while i < to
        invariant
            from <= i <= to <= chars@.len(),
            text@ == chars@.subrange(from as int, i as int),
        decreases to - i,
    {
        text.push(chars[i]);
        i += 1;
        assert(text@ == chars@.subrange(from as int, i as int));
    }
    text
}

/// The text made of the given characters.
pub fn string_of(chars: &Vec<char>) -> (text: String)
    ensures
        text@ == chars@,
{
    let text = slice_of(chars, 0, chars.len());
    assert(chars@.subrange(0, chars@.len() as int) == chars@);
    text
}

/// Whether `needle` stands in `chars` at offset `at`.
pub fn matches_at(chars: &Vec<char>, needle: &Vec<char>, at: usize) -> (result: bool)
    ensures
        result == occurs_at(chars@, needle@, at as int),
{
    if needle.len() > chars.len() || at > chars.len() - needle.len() {
        return false;
    }
    let mut i: usize = 0;
    while i < needle.len()
        invariant
            i <= needle@.len(),
            at + needle.len() <= chars.len(),
            forall|j: int| 0 <= j < i ==> #[trigger] needle@[j] == chars@[at + j],
        decreases needle@.len() - i,
    {
        if chars[at + i] != needle[i] {
            assert(chars@.subrange(at as int, at + needle@.len())[i as int] != needle@[i as int]);
            return false;
        }
        i += 1;
    }
    assert(chars@.subrange(at as int, at + needle@.len()) == needle@);
    true
}

/// Whether two texts hold the same characters.
pub fn same(a: &str, b: &str) -> (result: bool)
    ensures
        result == (a@ == b@),
{
    let left = chars_of(a);
    let right = chars_of(b);
    proof {
        if left@.len() == right@.len() {
            assert(left@.subrange(0, left@.len() as int) == left@);
        }
    }
    left.len() == right.len() && matches_at(&left, &right, 0)
}

/// Whether `text` begins with `prefix`.
pub fn starts_with(text: &str, prefix: &str) -> (result: bool)
    ensures
        result == occurs_at(text@, prefix@, 0),
{
    matches_at(&chars_of(text), &chars_of(prefix), 0)
}

/// What follows `prefix` where `text` begins with it.
pub fn strip_prefix(text: &str, prefix: &str) -> (rest: Option<String>)
    ensures
        rest is Some <==> occurs_at(text@, prefix@, 0),
        rest matches Some(r) ==> r@ == text@.skip(prefix@.len() as int),
{
    let chars = chars_of(text);
    let head = chars_of(prefix);
    if matches_at(&chars, &head, 0) {
        let rest = slice_of(&chars, head.len(), chars.len());
        assert(chars@.subrange(head@.len() as int, chars@.len() as int) == chars@.skip(
            head@.len() as int,
        ));
        Some(rest)
    } else {
        None
    }
}

/// Whether `needle` stands somewhere in `text`.
pub fn has(text: &str, needle: &str) -> (result: bool)
    ensures
        result == contains(text@, needle@),
{
    let chars = chars_of(text);
    let wanted = chars_of(needle);
    if wanted.len() > chars.len() {
        return false;
    }
    let last: usize = chars.len() - wanted.len();
    let mut at: usize = 0;
    loop
        invariant
            chars@ == text@,
            wanted@ == needle@,
            last == chars@.len() - wanted@.len(),
            at <= last,
            forall|i: int| 0 <= i < at ==> !occurs_at(chars@, wanted@, i),
        decreases last - at,
    {
        if matches_at(&chars, &wanted, at) {
            return true;
        }
        if at == last {
            return false;
        }
        at += 1;
    }
}

/// The greatest offset at which `needle` stands in `chars`.
pub fn rfind(chars: &Vec<char>, needle: &Vec<char>) -> (found: Option<usize>)
    ensures
        found is Some <==> last_occurrence(chars@, needle@) is Some,
        found matches Some(at) ==> last_occurrence(chars@, needle@) == Some(at as int),
{
    if needle.len() > chars.len() {
        return None;
    }
    let mut at: usize = chars.len() - needle.len();
    loop
        invariant
            at <= chars@.len() - needle@.len(),
            last_occurrence(chars@, needle@) == last_occurrence_to(chars@, needle@, at as int),
        decreases at,
    {
        if matches_at(chars, needle, at) {
            return Some(at);
        }
        if at == 0 {
            assert(last_occurrence_to(chars@, needle@, -1) is None);
            return None;
        }
        at -= 1;
    }
}

/// `text` without leading and trailing whitespace.
pub fn trimmed(text: &str) -> (result: String)
    ensures
        result@ == trim(text@),
{
    let chars = chars_of(text);
    let mut from: usize = 0;
    assert(chars@.subrange(0, chars@.len() as int) == chars@);
    while from < chars.len() && is_white(chars[from])
        invariant
            from <= chars@.len(),
            trim_start(chars@) == trim_start(chars@.subrange(from as int, chars@.len() as int)),
        decreases chars@.len() - from,
    {
        assert(chars@.subrange(from as int, chars@.len() as int).drop_first() == chars@.subrange(
            from + 1,
            chars@.len() as int,
        ));
        from += 1;
    }
    let ghost rest = chars@.subrange(from as int, chars@.len() as int);
    assert(trim_start(chars@) == rest);
    let mut to: usize = chars.len();
    while to > from && is_white(chars[to - 1])
        invariant
            from <= to <= chars@.len(),
            trim_end(rest) == trim_end(chars@.subrange(from as int, to as int)),
        decreases to,
    {
        assert(chars@.subrange(from as int, to as int).drop_last() == chars@.subrange(
            from as int,
            to - 1,
        ));
        to -= 1;
    }
    slice_of(&chars, from, to)
}

fn split_words(text: &str, ascii_only: bool) -> (list: Vec<String>)
    ensures
        ascii_only ==> texts(list@) == words_by(text@, |c: char| ascii_white(c)),
        !ascii_only ==> texts(list@) == words(text@),
{
    let chars = chars_of(text);
    let ghost separator = if ascii_only {
        |c: char| ascii_white(c)
    } else {
        |c: char| white(c)
    };
    let mut done: Vec<String> = Vec::new();
    let mut current = String::new();
    let mut inside = false;
    let mut i: usize = 0;
    while i < chars.len()
        invariant
            i <= chars@.len(),
            separator == (if ascii_only {
                |c: char| ascii_white(c)
            } else {
                |c: char| white(c)
            }),
            inside == (i > 0 && !separator(chars@[i - 1])),
            inside ==> words_by(chars@.take(i as int), separator) == texts(done@).push(current@),
            !inside ==> words_by(chars@.take(i as int), separator) == texts(done@),
        decreases chars@.len() - i,
    {
        let c = chars[i];
        let ghost prefix = chars@.take(i + 1);
        assert(prefix.drop_last() == chars@.take(i as int));
        let separates = if ascii_only {
            is_ascii_white(c)
        } else {
            is_white(c)
        };
        assert(separates == separator(c));
        if separates {
            if inside {
                let ghost before = texts(done@);
                done.push(current);
                assert(texts(done@) == before.push(done@.last()@));
                current = String::new();
            }
            inside = false;
        } else if inside {
            let ghost before = words_by(chars@.take(i as int), separator);
            assert(before.drop_last() == texts(done@));
            assert(before.last() == current@);
            current.push(c);
        } else {
            current = String::new();
            current.push(c);
            assert(current@ == seq![c]);
            inside = true;
        }
        i += 1;
    }
    assert(chars@.take(chars@.len() as int) == chars@);
    if inside {
        let ghost before = texts(done@);
        done.push(current);
        assert(texts(done@) == before.push(done@.last()@));
    }
    done
}

/// The words of `text`, separated by whitespace.
pub fn words_of(text: &str) -> (list: Vec<String>)
    ensures
        texts(list@) == words(text@),
{
    split_words(text, false)
}

/// The first word of `text`, separated by ASCII whitespace; empty where there is none.
pub fn first_word(text: &str) -> (word: String)
    ensures
        word@ == first_ascii_word(text@),
{
    let list = split_words(text, true);
    if list.len() == 0 {
        String::new()
    } else {
        assert(texts(list@)[0] == list@[0]@);
        list[0].clone()
    }
}

/// The pieces of `text` between the occurrences of `separator`.
pub fn split_at_each(text: &str, separator: char) -> (pieces: Vec<String>)
    ensures
        texts(pieces@) == split(text@, separator),
{
    let chars = chars_of(text);
    let mut done: Vec<String> = Vec::new();
    let mut current = String::new();
    let mut i: usize = 0;
    assert(texts(done@).push(current@) == seq![Seq::<char>::empty()]);
    assert(chars@.take(0) == Seq::<char>::empty());
    while i < chars.len()
        invariant
            i <= chars@.len(),
            split(chars@.take(i as int), separator) == texts(done@).push(current@),
        decreases chars@.len() - i,
    {
        let c = chars[i];
        let ghost prefix = chars@.take(i + 1);
        assert(prefix.drop_last() == chars@.take(i as int));
        let ghost before = texts(done@).push(current@);
        assert(before.drop_last() == texts(done@));
        if c == separator {
            done.push(current);
            assert(texts(done@) == before);
            current = String::new();
        } else {
            current.push(c);
        }
        i += 1;
    }
    assert(chars@.take(chars@.len() as int) == chars@);
    let ghost before = texts(done@);
    done.push(current);
    assert(texts(done@) == before.push(done@.last()@));
    done
}

/// The parts of `text` before and after its first `separator`, where it has one.
pub fn split_first(text: &str, separator: char) -> (parts: Option<(String, String)>)
    ensures
        parts is Some <==> before_first(text@, separator) < text@.len(),
        parts matches Some(p) ==> {
            &&& p.0@ == text@.take(before_first(text@, separator))
            &&& p.1@ == text@.skip(before_first(text@, separator) + 1)
        },
{
    let chars = chars_of(text);
    let mut i: usize = 0;
    assert(chars@.skip(0) == chars@);
    while i < chars.len()
        invariant
            i <= chars@.len(),
            chars@ == text@,
            before_first(text@, separator) == i + before_first(chars@.skip(i as int), separator),
        decreases chars@.len() - i,
    {
        if chars[i] == separator {
            assert(chars@.skip(i as int).first() == separator);
            let head = slice_of(&chars, 0, i);
            let tail = slice_of(&chars, i + 1, chars.len());
            assert(chars@.subrange(0, i as int) == chars@.take(i as int));
            assert(chars@.subrange(i + 1, chars@.len() as int) == chars@.skip(i + 1));
            return Some((head, tail));
        }
        assert(chars@.skip(i as int).drop_first() == chars@.skip(i + 1));
        i += 1;
    }
    None
}

/// `text` with every ASCII capital in lower case.
pub fn lowercase(text: &str) -> (result: String)
    ensures
        result@ == lowered(text@),
{
    let chars = chars_of(text);
    let mut result = String::new();
    let mut i: usize = 0;
    while i < chars.len()
        invariant
            i <= chars@.len(),
            result@ == lowered(chars@.take(i as int)),
        decreases chars@.len() - i,
    {
        result.push(to_lower(chars[i]));
        i += 1;
        assert(result@ == lowered(chars@.take(i as int)));
    }
    assert(chars@.take(chars@.len() as int) == chars@);
    result
}

/// `text` with every `from` replaced by `to`.
pub fn replace(text: &str, from: char, to: char) -> (result: String)
    ensures
        result@ == replaced(text@, from, to),
{
    let chars = chars_of(text);
    let mut result = String::new();
    let mut i: usize = 0;
    while i < chars.len()
        invariant
            i <= chars@.len(),
            result@ == replaced(chars@.take(i as int), from, to),
        decreases chars@.len() - i,
    {
        if chars[i] == from {
            result.push(to);
        } else {
            result.push(chars[i]);
        }
        i += 1;
        assert(result@ == replaced(chars@.take(i as int), from, to));
    }
    assert(chars@.take(chars@.len() as int) == chars@);
    result
}

/// `text` without the characters equal to `c`.
pub fn remove(text: &str, c: char) -> (result: String)
    ensures
        result@ == without(text@, c),
{
    let chars = chars_of(text);
    let mut result = String::new();
    let mut i: usize = 0;
    assert(result@ == without(chars@.take(0), c)) by {
        reveal(Seq::filter);
    }
    while i < chars.len()
        invariant
            i <= chars@.len(),
            result@ == without(chars@.take(i as int), c),
        decreases chars@.len() - i,
    {
        proof {
            reveal(Seq::filter);
            assert(chars@.take(i + 1).drop_last() == chars@.take(i as int));
        }
        if chars[i] != c {
            result.push(chars[i]);
        }
        i += 1;
    }
    assert(chars@.take(chars@.len() as int) == chars@);
    result
}

/// The first `limit` characters of `text`, or all of them where there are fewer.
pub fn take_chars(text: &str, limit: usize) -> (result: String)
    ensures
        result@ == text@.take(if text@.len() < limit {
            text@.len() as int
        } else {
            limit as int
        }),
{
    let chars = chars_of(text);
    let to: usize = if chars.len() < limit {
        chars.len()
    } else {
        limit
    };
    assert(chars@.subrange(0, to as int) == chars@.take(to as int));
    slice_of(&chars, 0, to)
}

/// Whether every character of `text` is a decimal digit.
pub fn all_digits(text: &str) -> (result: bool)
    ensures
        result == (forall|i: int| 0 <= i < text@.len() ==> digit(#[trigger] text@[i])),
{
    let chars = chars_of(text);
    let mut i: usize = 0;
    while i < chars.len()
        invariant
            i <= chars@.len(),
            chars@ == text@,
            forall|j: int| 0 <= j < i ==> digit(#[trigger] text@[j]),
        decreases chars@.len() - i,
    {
        if !is_digit(chars[i]) {
            assert(!digit(text@[i as int]));
            return false;
        }
        i += 1;
    }
    true
}

/// Whether `a` comes before `b` in the lexicographic order of code points.
pub fn comes_before(a: &str, b: &str) -> (result: bool)
    ensures
        result == precedes(a@, b@),
{
    let left = chars_of(a);
    let right = chars_of(b);
    let mut i: usize = 0;
    assert(left@.skip(0) == left@);
    assert(right@.skip(0) == right@);
    while i < left.len() && i < right.len()
        invariant
            i <= left@.len(),
            i <= right@.len(),
            left@ == a@,
            right@ == b@,
            precedes(a@, b@) == precedes(left@.skip(i as int), right@.skip(i as int)),
        decreases left@.len() - i,
    {
        assert(left@.skip(i as int).first() == left@[i as int]);
        assert(right@.skip(i as int).first() == right@[i as int]);
        if left[i] != right[i] {
            return left[i] < right[i];
        }
        assert(left@.skip(i as int).drop_first() == left@.skip(i + 1));
        assert(right@.skip(i as int).drop_first() == right@.skip(i + 1));
        i += 1;
    }
    i < right.len()
}

/// The decimal digits of `n`.
pub fn number(n: usize) -> (result: String)
    ensures
        result@ == decimal(n as nat),
    decreases n,
{
    let last: char = ((n % 10) as u8 + 48) as char;
    if n < 10 {
        let mut result = String::new();
        result.push(last);
        assert(result@ == seq![last]);
        result
    } else {
        let mut result = number(n / 10);
        result.push(last);
        result
    }
}

/// A copy of the given bytes.
pub fn copy_bytes(bytes: &[u8]) -> (copy: Vec<u8>)
    ensures
        copy@ == bytes@,
{
    let mut copy: Vec<u8> = Vec::new();
    let mut i: usize = 0;
    while i < bytes.len()
        invariant
            i <= bytes@.len(),
            copy@ == bytes@.take(i as int),
        decreases bytes@.len() - i,
    {
        copy.push(bytes[i]);
        i += 1;
        assert(copy@ == bytes@.take(i as int));
    }
    assert(bytes@.take(bytes@.len() as int) == bytes@);
    copy
}

/// The order of code points is irreflexive.
pub proof fn precedes_irreflexive(a: Seq<char>)
    ensures
        !precedes(a, a),
    decreases a.len(),
{
    if a.len() > 0 {
        precedes_irreflexive(a.drop_first());
    }
}

/// The order of code points is transitive.
pub proof fn precedes_transitive(a: Seq<char>, b: Seq<char>, c: Seq<char>)
    requires
        precedes(a, b),
        precedes(b, c),
    ensures
        precedes(a, c),
    decreases a.len(),
{
    if a.len() > 0 && b.len() > 0 && c.len() > 0 && a.first() == b.first() && b.first()
        == c.first() {
        precedes_transitive(a.drop_first(), b.drop_first(), c.drop_first());
    }
}

/// Of two different texts one comes before the other.
pub proof fn precedes_total(a: Seq<char>, b: Seq<char>)
    requires
        a != b,
    ensures
        precedes(a, b) || precedes(b, a),
    decreases a.len(),
{
    if a.len() == 0 && b.len() == 0 {
        assert(a == b);
    } else if a.len() > 0 && b.len() > 0 && a.first() == b.first() {
        if a.drop_first() == b.drop_first() {
            assert(a == seq![a.first()] + a.drop_first());
            assert(b == seq![b.first()] + b.drop_first());
        }
        precedes_total(a.drop_first(), b.drop_first());
    }
}

} // verus!
