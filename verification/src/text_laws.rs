//! What the functions on texts give, told by the texts themselves.

use vstd::prelude::*;
use vstd::utf8::{encode_utf8, encode_utf8_decode_utf8, encode_utf8_valid_utf8};

use crate::text::{
    alphanumeric, ascii_white, before_first, contains, control, decimal, decoded, digit,
    first_ascii_word, last_occurrence, last_occurrence_to, lower_hex, lowered, occurs_at, plain,
    precedes, quoted, replaced, split, trim, trim_end, trim_start, white, without, words, words_by,
};

verus! {

/// `piece` stands somewhere in `s`: something precedes it and something follows it, perhaps
/// nothing.
pub open spec fn within(s: Seq<char>, piece: Seq<char>) -> bool {
    exists|a: Seq<char>, b: Seq<char>| s == #[trigger] (a + piece + b)
}

/// `piece` stands in `s` with `at` characters before it.
pub open spec fn stands_at(s: Seq<char>, piece: Seq<char>, at: int) -> bool {
    0 <= at && at + piece.len() <= s.len() && forall|i: int|
        0 <= i < piece.len() ==> s[at + i] == #[trigger] piece[i]
}

/// A piece stands in a text exactly where the search at that place says so.
pub proof fn places_are_found(s: Seq<char>, piece: Seq<char>, at: int)
    ensures
        occurs_at(s, piece, at) <==> stands_at(s, piece, at),
{
    if occurs_at(s, piece, at) {
        assert forall|i: int| 0 <= i < piece.len() implies s[at + i] == #[trigger] piece[i] by {
            assert(s.subrange(at, at + piece.len())[i] == piece[i]);
        }
    }
    if stands_at(s, piece, at) {
        assert(s.subrange(at, at + piece.len()) == piece);
    }
}

/// A text contains a piece exactly where it is that piece with something before and after it.
pub proof fn containing_is_being_around(s: Seq<char>, piece: Seq<char>)
    ensures
        contains(s, piece) <==> within(s, piece),
{
    if contains(s, piece) {
        let at = choose|at: int| occurs_at(s, piece, at);
        assert(s == s.take(at) + piece + s.skip(at + piece.len()));
    }
    if within(s, piece) {
        let (a, b) = choose|a: Seq<char>, b: Seq<char>| s == #[trigger] (a + piece + b);
        assert(s.subrange(a.len() as int, (a.len() + piece.len()) as int) == piece);
        assert(occurs_at(s, piece, a.len() as int));
    }
}

/// What stands before and after a piece does not hide it.
pub proof fn surroundings_hide_nothing(before: Seq<char>, piece: Seq<char>, after: Seq<char>)
    ensures
        contains(before + piece + after, piece),
        within(before + piece + after, piece),
{
    containing_is_being_around(before + piece + after, piece);
}

proof fn last_to(s: Seq<char>, needle: Seq<char>, limit: int)
    ensures
        match last_occurrence_to(s, needle, limit) {
            Some(at) => at <= limit && occurs_at(s, needle, at) && forall|k: int|
                at < k <= limit ==> !#[trigger] occurs_at(s, needle, k),
            None => forall|k: int| k <= limit ==> !#[trigger] occurs_at(s, needle, k),
        },
    decreases limit + 1,
{
    if limit >= 0 && !occurs_at(s, needle, limit) {
        last_to(s, needle, limit - 1);
    }
}

/// The last occurrence of a piece is an occurrence, and none is later. Where there is none, the
/// piece stands nowhere.
pub proof fn last_occurrence_is_the_last(s: Seq<char>, needle: Seq<char>)
    ensures
        match last_occurrence(s, needle) {
            Some(at) => stands_at(s, needle, at) && forall|k: int|
                k > at ==> !#[trigger] stands_at(s, needle, k),
            None => forall|k: int| !#[trigger] stands_at(s, needle, k),
        },
{
    last_to(s, needle, s.len() - needle.len());
    assert forall|k: int| occurs_at(s, needle, k) == #[trigger] stands_at(s, needle, k) by {
        places_are_found(s, needle, k);
    }
    match last_occurrence(s, needle) {
        Some(at) => {
            assert(occurs_at(s, needle, at) == stands_at(s, needle, at));
        },
        None => {},
    }
}

/// Whitespace, by code point.
pub proof fn whitespace_by_code_point(c: char)
    ensures
        white(c) <==> {
            let n = c as u32;
            ||| 9 <= n <= 13
            ||| n == 32
            ||| n == 0x85
            ||| n == 0xa0
            ||| n == 0x1680
            ||| 0x2000 <= n <= 0x200a
            ||| n == 0x2028
            ||| n == 0x2029
            ||| n == 0x202f
            ||| n == 0x205f
            ||| n == 0x3000
        },
        ascii_white(c) <==> {
            let n = c as u32;
            n == 9 || n == 10 || n == 12 || n == 13 || n == 32
        },
{
}

/// The other classes of characters, by code point.
pub proof fn classes_by_code_point(c: char)
    ensures
        control(c) <==> (c as u32) < 32 || 127 <= c as u32 <= 159,
        digit(c) <==> 48 <= c as u32 <= 57,
        alphanumeric(c) <==> 48 <= c as u32 <= 57 || 65 <= c as u32 <= 90 || 97 <= c as u32 <= 122,
        lower_hex(c) <==> 48 <= c as u32 <= 57 || 97 <= c as u32 <= 102,
{
}

/// Lower-casing keeps the length; capitals of ASCII move by the distance of the cases, and every
/// other character stays.
pub proof fn lowering_moves_capitals_only(s: Seq<char>, i: int)
    requires
        0 <= i < s.len(),
    ensures
        lowered(s).len() == s.len(),
        65 <= s[i] as u32 <= 90 ==> lowered(s)[i] as u32 == s[i] as u32 + 32,
        !(65 <= s[i] as u32 <= 90) ==> lowered(s)[i] == s[i],
{
}

/// Replacing a character keeps the length and every other character.
pub proof fn replacing_changes_one_character(s: Seq<char>, from: char, to: char, i: int)
    requires
        0 <= i < s.len(),
    ensures
        replaced(s, from, to).len() == s.len(),
        s[i] == from ==> replaced(s, from, to)[i] == to,
        s[i] != from ==> replaced(s, from, to)[i] == s[i],
{
}

/// Removing a character from a text removes it from each part of the text, leaves a text without
/// it as it is, and removes it where it stands alone.
pub proof fn removing_goes_by_parts(a: Seq<char>, b: Seq<char>, c: char)
    ensures
        without(a + b, c) == without(a, c) + without(b, c),
        (forall|i: int| 0 <= i < a.len() ==> #[trigger] a[i] != c) ==> without(a, c) == a,
        without(seq![c], c) == Seq::<char>::empty(),
{
    Seq::<char>::filter_distributes_over_add(a, b, |x: char| x != c);
    if forall|i: int| 0 <= i < a.len() ==> #[trigger] a[i] != c {
        absent_stays(a, c);
    }
    reveal(Seq::filter);
    let one = seq![c];
    assert(one.drop_last() == Seq::<char>::empty());
    absent_stays(Seq::empty(), c);
}

proof fn absent_stays(s: Seq<char>, c: char)
    requires
        forall|i: int| 0 <= i < s.len() ==> #[trigger] s[i] != c,
    ensures
        without(s, c) == s,
    decreases s.len(),
{
    reveal(Seq::filter);
    if s.len() > 0 {
        assert forall|i: int| 0 <= i < s.drop_last().len() implies #[trigger] s.drop_last()[i]
            != c by {
            assert(s.drop_last()[i] == s[i]);
        }
        absent_stays(s.drop_last(), c);
        assert(s.drop_last().push(s.last()) == s);
    }
}

/// A text of whitespace alone.
pub open spec fn blank(s: Seq<char>) -> bool {
    forall|i: int| 0 <= i < s.len() ==> white(#[trigger] s[i])
}

/// Trimming a text with whitespace around it gives the text, where that begins and ends with
/// other characters or is empty.
pub proof fn trimming_takes_whitespace_around(a: Seq<char>, s: Seq<char>, b: Seq<char>)
    requires
        blank(a),
        blank(b),
        s.len() > 0 ==> !white(s.first()) && !white(s.last()),
    ensures
        trim(a + s + b) == s,
{
    if s.len() > 0 {
        start_trimmed(a, s + b);
        assert(a + s + b == a + (s + b));
        end_trimmed(s, b);
    } else {
        let all = a + s + b;
        assert forall|i: int| 0 <= i < all.len() implies white(#[trigger] all[i]) by {
            if i < a.len() {
                assert(all[i] == a[i]);
            } else {
                assert(all[i] == b[i - a.len()]);
            }
        }
        blank_trimmed(all);
        assert(s == Seq::<char>::empty());
    }
}

proof fn blank_trimmed(s: Seq<char>)
    requires
        blank(s),
    ensures
        trim_start(s) == Seq::<char>::empty(),
    decreases s.len(),
{
    if s.len() > 0 {
        assert(white(s[0]));
        assert forall|i: int| 0 <= i < s.drop_first().len() implies white(
            #[trigger] s.drop_first()[i],
        ) by {
            assert(s.drop_first()[i] == s[i + 1]);
        }
        blank_trimmed(s.drop_first());
    }
}

proof fn start_trimmed(a: Seq<char>, s: Seq<char>)
    requires
        blank(a),
        s.len() > 0,
        !white(s.first()),
    ensures
        trim_start(a + s) == s,
    decreases a.len(),
{
    if a.len() == 0 {
        assert(a + s == s);
    } else {
        assert((a + s).first() == a[0]);
        assert((a + s).drop_first() == a.drop_first() + s);
        assert forall|i: int| 0 <= i < a.drop_first().len() implies white(
            #[trigger] a.drop_first()[i],
        ) by {
            assert(a.drop_first()[i] == a[i + 1]);
        }
        start_trimmed(a.drop_first(), s);
    }
}

proof fn end_trimmed(s: Seq<char>, b: Seq<char>)
    requires
        blank(b),
        s.len() > 0,
        !white(s.last()),
    ensures
        trim_end(s + b) == s,
    decreases b.len(),
{
    if b.len() == 0 {
        assert(s + b == s);
    } else {
        assert((s + b).last() == b[b.len() - 1]);
        assert((s + b).drop_last() == s + b.drop_last());
        assert forall|i: int| 0 <= i < b.drop_last().len() implies white(
            #[trigger] b.drop_last()[i],
        ) by {
            assert(b.drop_last()[i] == b[i]);
        }
        end_trimmed(s, b.drop_last());
    }
}

proof fn unfinished_word(s: Seq<char>, separator: spec_fn(char) -> bool)
    requires
        s.len() > 0,
        !separator(s.last()),
    ensures
        words_by(s, separator).len() > 0,
{
}

proof fn words_by_parts(
    a: Seq<char>,
    w: char,
    b: Seq<char>,
    separator: spec_fn(char) -> bool,
)
    requires
        separator(w),
    ensures
        words_by(a + seq![w] + b, separator) == words_by(a, separator) + words_by(b, separator),
    decreases b.len(),
{
    let s = a + seq![w] + b;
    if b.len() == 0 {
        assert(s.drop_last() == a);
        assert(s.last() == w);
        assert(words_by(a, separator) + Seq::<Seq<char>>::empty() == words_by(a, separator));
    } else {
        let rest = b.drop_last();
        assert(s.drop_last() == a + seq![w] + rest);
        assert(s.last() == b.last());
        words_by_parts(a, w, rest, separator);
        let left = words_by(a, separator);
        let right = words_by(rest, separator);
        if separator(b.last()) {
        } else if b.len() == 1 {
            assert(s[s.len() - 2] == w);
            assert(rest == Seq::<char>::empty());
            assert((left + right).push(seq![b.last()]) == left + right.push(seq![b.last()]));
        } else {
            assert(s[s.len() - 2] == b[b.len() - 2]);
            if separator(b[b.len() - 2]) {
                assert((left + right).push(seq![b.last()]) == left + right.push(seq![b.last()]));
            } else {
                assert(rest.last() == b[b.len() - 2]);
                unfinished_word(rest, separator);
                let longer = right.last().push(b.last());
                assert((left + right).last() == right.last());
                assert((left + right).drop_last() == left + right.drop_last());
                assert((left + right.drop_last()).push(longer) == left + right.drop_last().push(
                    longer,
                ));
            }
        }
    }
}

proof fn one_word_by(s: Seq<char>, separator: spec_fn(char) -> bool)
    requires
        s.len() > 0,
        forall|i: int| 0 <= i < s.len() ==> !separator(#[trigger] s[i]),
    ensures
        words_by(s, separator) == seq![s],
    decreases s.len(),
{
    let before = s.drop_last();
    assert(s.last() == s[s.len() - 1]);
    if s.len() == 1 {
        assert(before == Seq::<char>::empty());
        assert(words_by(before, separator) == Seq::<Seq<char>>::empty());
        assert(seq![s.last()] == s);
        assert(words_by(s, separator) == seq![s]);
    } else {
        assert forall|i: int| 0 <= i < before.len() implies !separator(#[trigger] before[i]) by {
            assert(before[i] == s[i]);
        }
        one_word_by(before, separator);
        assert(!separator(s[s.len() - 2]));
        assert(words_by(before, separator).last().push(s.last()) == s);
        assert(words_by(s, separator) == seq![s]);
    }
}

/// The words of two texts with a whitespace character between them are the words of the one and
/// those of the other; a text without whitespace is one word; nothing has no word.
pub proof fn words_go_by_whitespace(a: Seq<char>, w: char, b: Seq<char>)
    requires
        white(w),
    ensures
        words(a + seq![w] + b) == words(a) + words(b),
        (a.len() > 0 && forall|i: int| 0 <= i < a.len() ==> !white(#[trigger] a[i])) ==> words(a)
            == seq![a],
        words(Seq::empty()) == Seq::<Seq<char>>::empty(),
{
    words_by_parts(a, w, b, |c: char| white(c));
    if a.len() > 0 && forall|i: int| 0 <= i < a.len() ==> !white(#[trigger] a[i]) {
        one_word_by(a, |c: char| white(c));
    }
}

proof fn leading_separators(lead: Seq<char>, s: Seq<char>, separator: spec_fn(char) -> bool)
    requires
        forall|i: int| 0 <= i < lead.len() ==> separator(#[trigger] lead[i]),
    ensures
        words_by(lead + s, separator) == words_by(s, separator),
    decreases lead.len(),
{
    if lead.len() == 0 {
        assert(lead + s == s);
    } else {
        let before = lead.drop_last();
        assert(lead + s == before + seq![lead.last()] + s);
        assert(lead.last() == lead[lead.len() - 1]);
        assert forall|i: int| 0 <= i < before.len() implies separator(#[trigger] before[i]) by {
            assert(before[i] == lead[i]);
        }
        words_by_parts(before, lead.last(), s, separator);
        leading_separators(before, Seq::empty(), separator);
        assert(before + Seq::<char>::empty() == before);
        assert(words_by(Seq::<char>::empty(), separator) == Seq::<Seq<char>>::empty());
        assert(Seq::<Seq<char>>::empty() + words_by(s, separator) == words_by(s, separator));
    }
}

/// The verb of a command is what stands before its first whitespace, leading whitespace aside.
pub proof fn verbs_end_at_whitespace(lead: Seq<char>, verb: Seq<char>, w: char, rest: Seq<char>)
    requires
        forall|i: int| 0 <= i < lead.len() ==> ascii_white(#[trigger] lead[i]),
        verb.len() > 0,
        forall|i: int| 0 <= i < verb.len() ==> !ascii_white(#[trigger] verb[i]),
        ascii_white(w),
    ensures
        first_ascii_word(lead + verb) == verb,
        first_ascii_word(lead + (verb + seq![w] + rest)) == verb,
        first_ascii_word(lead) == Seq::<char>::empty(),
{
    let separator = |c: char| ascii_white(c);
    one_word_by(verb, separator);
    words_by_parts(verb, w, rest, separator);
    leading_separators(lead, verb, separator);
    leading_separators(lead, verb + seq![w] + rest, separator);
    leading_separators(lead, Seq::empty(), separator);
    assert(lead + Seq::<char>::empty() == lead);
    assert((seq![verb] + words_by(rest, separator))[0] == verb);
}

/// The pieces put together again, with the separator between them.
pub open spec fn joined(pieces: Seq<Seq<char>>, separator: char) -> Seq<char>
    decreases pieces.len(),
{
    if pieces.len() == 0 {
        Seq::empty()
    } else if pieces.len() == 1 {
        pieces[0]
    } else {
        joined(pieces.drop_last(), separator) + seq![separator] + pieces.last()
    }
}

/// Splitting takes nothing away: the pieces put together again are the text, and none of them
/// holds the separator.
pub proof fn splitting_is_undone_by_joining(s: Seq<char>, separator: char)
    ensures
        split(s, separator).len() > 0,
        joined(split(s, separator), separator) == s,
        forall|i: int, k: int|
            0 <= i < split(s, separator).len() && 0 <= k < split(s, separator)[i].len()
                ==> #[trigger] split(s, separator)[i][k] != separator,
    decreases s.len(),
{
    let pieces = split(s, separator);
    if s.len() == 0 {
        assert(pieces == seq![Seq::<char>::empty()]);
    } else {
        let before = split(s.drop_last(), separator);
        splitting_is_undone_by_joining(s.drop_last(), separator);
        if s.last() == separator {
            assert(pieces.drop_last() == before);
            assert(joined(before, separator) + seq![separator] + Seq::<char>::empty() == s);
            assert forall|i: int, k: int|
                0 <= i < pieces.len() && 0 <= k < pieces[i].len() implies #[trigger] pieces[i][k]
                != separator by {
                assert(pieces[i] == before[i]);
                assert(before[i][k] != separator);
            }
        } else {
            let longer = before.last().push(s.last());
            assert(pieces.last() == longer);
            assert(pieces.drop_last() == before.drop_last());
            assert forall|i: int, k: int|
                0 <= i < pieces.len() && 0 <= k < pieces[i].len() implies #[trigger] pieces[i][k]
                != separator by {
                if i < pieces.len() - 1 {
                    assert(pieces[i] == before[i]);
                    assert(before[i][k] != separator);
                } else if k < before.last().len() {
                    assert(pieces[i][k] == before[before.len() - 1][k]);
                    assert(before[before.len() - 1][k] != separator);
                }
            }
            if before.len() == 1 {
                assert(before[0] == before.last());
                assert(longer == s);
            } else {
                assert(joined(before.drop_last(), separator) + seq![separator] + longer == (joined(
                    before.drop_last(),
                    separator,
                ) + seq![separator] + before.last()).push(s.last()));
                assert(s.drop_last().push(s.last()) == s);
            }
        }
    }
}

/// The pieces of two texts with the separator between them are the pieces of the one and those of
/// the other; a text without the separator is one piece.
pub proof fn splitting_goes_by_separators(a: Seq<char>, separator: char, b: Seq<char>)
    ensures
        split(a + seq![separator] + b, separator) == split(a, separator) + split(b, separator),
        (forall|i: int| 0 <= i < a.len() ==> #[trigger] a[i] != separator) ==> split(a, separator)
            == seq![a],
    decreases a.len() + b.len(),
{
    let s = a + seq![separator] + b;
    let left = split(a, separator);
    if b.len() == 0 {
        assert(s.drop_last() == a);
        assert(s.last() == separator);
        assert(left.push(Seq::empty()) == left + seq![Seq::<char>::empty()]);
    } else {
        let rest = b.drop_last();
        splitting_goes_by_separators(a, separator, rest);
        splitting_is_undone_by_joining(rest, separator);
        let right = split(rest, separator);
        assert(s.drop_last() == a + seq![separator] + rest);
        assert(s.last() == b.last());
        if b.last() == separator {
            assert((left + right).push(Seq::empty()) == left + right.push(Seq::empty()));
        } else {
            let longer = right.last().push(b.last());
            assert((left + right).last() == right.last());
            assert((left + right).drop_last().push(longer) == left + right.drop_last().push(
                longer,
            ));
        }
    }
    if forall|i: int| 0 <= i < a.len() ==> #[trigger] a[i] != separator {
        one_piece(a, separator);
    }
}

proof fn one_piece(s: Seq<char>, separator: char)
    requires
        forall|i: int| 0 <= i < s.len() ==> #[trigger] s[i] != separator,
    ensures
        split(s, separator) == seq![s],
    decreases s.len(),
{
    if s.len() == 0 {
        assert(s == Seq::<char>::empty());
    } else {
        let before = s.drop_last();
        assert forall|i: int| 0 <= i < before.len() implies #[trigger] before[i] != separator by {
            assert(before[i] == s[i]);
        }
        one_piece(before, separator);
        assert(s.last() == s[s.len() - 1]);
        assert(before.push(s.last()) == s);
        assert(split(s, separator) == seq![s]);
    }
}

/// The part before the first of a character does not hold it, and the character comes next.
pub proof fn first_place_is_the_first(s: Seq<char>, c: char)
    ensures
        0 <= before_first(s, c) <= s.len(),
        before_first(s, c) < s.len() ==> s[before_first(s, c)] == c,
        forall|i: int| 0 <= i < before_first(s, c) ==> #[trigger] s[i] != c,
    decreases s.len(),
{
    if s.len() > 0 && s.first() != c {
        let rest = s.drop_first();
        first_place_is_the_first(rest, c);
        assert forall|i: int| 0 <= i < before_first(s, c) implies #[trigger] s[i] != c by {
            if i > 0 {
                assert(s[i] == rest[i - 1]);
            }
        }
        if before_first(s, c) < s.len() {
            assert(s[before_first(s, c)] == rest[before_first(rest, c)]);
        }
    }
}

/// Texts are ordered by the first character in which they differ, and a text comes before every
/// longer one that begins with it.
pub proof fn order_goes_by_the_first_difference(
    common: Seq<char>,
    a: char,
    x: Seq<char>,
    b: char,
    y: Seq<char>,
)
    requires
        a != b,
    ensures
        precedes(common + seq![a] + x, common + seq![b] + y) <==> (a as u32) < (b as u32),
        precedes(common, common + seq![a] + x),
        !precedes(common + seq![a] + x, common),
    decreases common.len(),
{
    let left = common + seq![a] + x;
    let right = common + seq![b] + y;
    if common.len() == 0 {
        assert(left.first() == a);
        assert(right.first() == b);
    } else {
        assert(left.first() == common.first());
        assert(right.first() == common.first());
        assert(left.drop_first() == common.drop_first() + seq![a] + x);
        assert(right.drop_first() == common.drop_first() + seq![b] + y);
        order_goes_by_the_first_difference(common.drop_first(), a, x, b, y);
    }
}

/// The number that decimal digits stand for.
pub open spec fn number_of(s: Seq<char>) -> int
    decreases s.len(),
{
    if s.len() == 0 {
        0
    } else {
        number_of(s.drop_last()) * 10 + (s.last() as u32 - 48)
    }
}

/// A number is written with digits that stand for it, and without a leading zero.
pub proof fn decimals_stand_for_their_number(n: nat)
    ensures
        number_of(decimal(n)) == n,
        decimal(n).len() > 0,
        forall|i: int|
            0 <= i < decimal(n).len() ==> 48 <= (#[trigger] decimal(n)[i]) as u32 <= 57,
        decimal(n).len() > 1 ==> decimal(n)[0] as u32 != 48,
    decreases n,
{
    let s = decimal(n);
    if n < 10 {
        let c = (n + 48) as char;
        assert(s.drop_last() == Seq::<char>::empty());
        assert(number_of(s.drop_last()) == 0);
        assert(c as u32 == n + 48);
    } else {
        decimals_stand_for_their_number(n / 10);
        let c = (n % 10 + 48) as char;
        assert(c as u32 == n % 10 + 48);
        assert(s.drop_last() == decimal(n / 10));
        assert forall|i: int| 0 <= i < s.len() implies 48 <= (#[trigger] s[i]) as u32 <= 57 by {
            if i < s.len() - 1 {
                assert(s[i] == decimal(n / 10)[i]);
            }
        }
        assert(s[0] == decimal(n / 10)[0]);
        if decimal(n / 10).len() == 1 {
            let tens = decimal(n / 10);
            assert(tens.drop_last() == Seq::<char>::empty());
            assert(number_of(tens.drop_last()) == 0);
            assert(tens.last() == tens[0]);
        }
    }
}

/// Text that was encoded is decoded to itself.
pub proof fn decoding_undoes_encoding(s: Seq<char>)
    ensures
        decoded(encode_utf8(s)) == s,
{
    encode_utf8_valid_utf8(s);
    encode_utf8_decode_utf8(s);
}

/// Printable text of ASCII without quotes and backslashes is quoted as it is.
pub proof fn plain_text_is_quoted_as_it_is(s: Seq<char>)
    requires
        forall|i: int|
            0 <= i < s.len() ==> ' ' <= (#[trigger] s[i]) <= '~' && s[i] != '"' && s[i] != '\\',
    ensures
        quoted(s) == seq!['"'] + s + seq!['"'],
{
    assert(plain(s));
}

} // verus!
