//! What holds of the console protocol as a whole: each end reads what the other writes.

use vstd::prelude::*;
use vstd::utf8::{
    char_u32_cast, encode_scalar, encode_utf8, encode_utf8_decode_utf8, encode_utf8_valid_utf8,
};

use crate::config::valid_id;
use crate::console::{
    command_frame, command_of, ends_line, first_line, framed, handshake_of, item, mute_command,
    remote_command, response_text, unmute_command, DecoderView, HandshakeView, SessionActionView,
    SessionView,
};
use crate::text::{decoded, occurs_at, trim, white, words, words_by};

verus! {

/// A text that is one word: not empty and without whitespace.
pub open spec fn one_word(s: Seq<char>) -> bool {
    s.len() > 0 && forall|i: int| 0 <= i < s.len() ==> !white(#[trigger] s[i])
}

proof fn encode_concat(a: Seq<char>, b: Seq<char>)
    ensures
        encode_utf8(a + b) == encode_utf8(a) + encode_utf8(b),
    decreases a.len(),
{
    if a.len() == 0 {
        assert(a + b == b);
        assert(encode_utf8(a) + encode_utf8(b) == encode_utf8(b));
    } else {
        assert((a + b)[0] == a[0]);
        assert((a + b).drop_first() == a.drop_first() + b);
        encode_concat(a.drop_first(), b);
        assert(encode_utf8(a + b) == encode_utf8(a) + encode_utf8(b));
    }
}

proof fn one_byte_scalar(s: u32)
    by (bit_vector)
    requires
        s <= 0x7f,
    ensures
        (s & 0x7F) as u8 == s,
{
}

proof fn many_byte_scalar(s: u32)
    by (bit_vector)
    ensures
        (0xC0u8 | ((s >> 6u32) & 0x1F) as u8) >= 0x80,
        (0xE0u8 | ((s >> 12u32) & 0x0F) as u8) >= 0x80,
        (0xF0u8 | ((s >> 18u32) & 0x7) as u8) >= 0x80,
        (0x80u8 | (s & 0x3F) as u8) >= 0x80,
        (0x80u8 | ((s >> 6u32) & 0x3F) as u8) >= 0x80,
        (0x80u8 | ((s >> 12u32) & 0x3F) as u8) >= 0x80,
{
}

/// An ASCII byte stands in the encoding of a text only where its character stands in the text.
proof fn encoding_has_no_other_ascii(text: Seq<char>, byte: u8)
    requires
        byte < 0x80,
        forall|i: int| 0 <= i < text.len() ==> #[trigger] text[i] as u32 != byte as u32,
    ensures
        forall|i: int| 0 <= i < encode_utf8(text).len() ==> #[trigger] encode_utf8(text)[i] != byte,
    decreases text.len(),
{
    if text.len() > 0 {
        let s = text[0] as u32;
        let rest = text.drop_first();
        assert forall|i: int| 0 <= i < rest.len() implies #[trigger] rest[i] as u32
            != byte as u32 by {
            assert(rest[i] == text[i + 1]);
        }
        encoding_has_no_other_ascii(rest, byte);
        many_byte_scalar(s);
        if s <= 0x7f {
            one_byte_scalar(s);
        }
        let head = encode_scalar(s);
        assert(forall|i: int| 0 <= i < head.len() ==> #[trigger] head[i] != byte);
        assert forall|i: int| 0 <= i < encode_utf8(text).len() implies #[trigger] encode_utf8(
            text,
        )[i] != byte by {
            if i < head.len() {
                assert(encode_utf8(text)[i] == head[i]);
            } else {
                assert(encode_utf8(text)[i] == encode_utf8(rest)[i - head.len()]);
            }
        }
    }
}

proof fn encode_one(c: char, byte: u8)
    requires
        c as u32 == byte as u32,
        byte < 0x80,
    ensures
        encode_utf8(seq![c]) == seq![byte],
{
    let one = seq![c];
    one_byte_scalar(c as u32);
    assert(one.drop_first() == Seq::<char>::empty());
    assert(encode_utf8(one.drop_first()) == Seq::<u8>::empty());
    assert(encode_scalar(c as u32) == seq![byte]);
    assert(encode_utf8(one) == seq![byte]);
}

/// The encoding of a text that begins with a character of ASCII begins with its byte.
pub(crate) proof fn encode_first(text: Seq<char>, byte: u8)
    requires
        text.len() > 0,
        text[0] as u32 == byte as u32,
        byte < 0x80,
    ensures
        encode_utf8(text).len() > 0,
        encode_utf8(text)[0] == byte,
{
    let head = seq![text[0]];
    assert(text == head + text.drop_first());
    encode_concat(head, text.drop_first());
    encode_one(text[0], byte);
}

/// In the frame of a command of one line, only the last byte ends a line.
pub(crate) proof fn frames_have_one_end(text: Seq<char>)
    requires
        single_line(text),
    ensures
        ({
            let frame = command_frame(text);
            forall|i: int|
                0 < i < frame.len() - 1 ==> #[trigger] frame[i] != 10 && frame[i] != 13
        }),
{
    reveal_strlit("\0");
    reveal_strlit("\n");
    let bytes = encode_utf8(text);
    let frame = command_frame(text);
    assert("\0"@ == seq!['\0']);
    assert("\n"@ == seq!['\n']);
    encode_concat("\0"@ + text, "\n"@);
    encode_concat("\0"@, text);
    encode_one('\0', 0);
    encode_one('\n', 10);
    assert(frame == seq![0u8] + bytes + seq![10u8]);
    assert forall|i: int| 0 <= i < text.len() implies #[trigger] text[i] as u32 != 10u8 as u32 by {
        if text[i] as u32 == 10 {
            char_u32_cast(text[i], 10);
        }
    }
    assert forall|i: int| 0 <= i < text.len() implies #[trigger] text[i] as u32 != 13u8 as u32 by {
        if text[i] as u32 == 13 {
            char_u32_cast(text[i], 13);
        }
    }
    encoding_has_no_other_ascii(text, 10);
    encoding_has_no_other_ascii(text, 13);
    assert forall|i: int| 0 < i < frame.len() - 1 implies #[trigger] frame[i] != 10 && frame[i]
        != 13 by {
        assert(frame[i] == bytes[i - 1]);
    }
}

/// Reading goes on from where it stands: the reading of two pieces is that of the second after
/// that of the first.
proof fn decoder_concat(state: DecoderView, a: Seq<u8>, b: Seq<u8>, prompting: bool)
    ensures
        state.after_all(a + b) == state.after_all(a).after_all(b),
        state.shows_all(a + b, prompting) == state.shows_all(a, prompting) + state.after_all(
            a,
        ).shows_all(b, prompting),
    decreases b.len(),
{
    if b.len() == 0 {
        assert(a + b == a);
        assert(state.shows_all(a, prompting) + Seq::<u8>::empty() == state.shows_all(
            a,
            prompting,
        ));
    } else {
        assert((a + b).drop_last() == a + b.drop_last());
        assert((a + b).last() == b.last());
        decoder_concat(state, a, b.drop_last(), prompting);
        assert(state.shows_all(a + b, prompting) == state.shows_all(a, prompting)
            + state.after_all(a).shows_all(b, prompting));
    }
}

proof fn decoder_collects(start: Seq<u8>, bytes: Seq<u8>, prompting: bool)
    requires
        forall|i: int| 0 <= i < bytes.len() ==> #[trigger] bytes[i] != 0,
    ensures
        (DecoderView::Response { bytes: start }).after_all(bytes) == (DecoderView::Response {
            bytes: start + bytes,
        }),
        (DecoderView::Response { bytes: start }).shows_all(bytes, prompting) == Seq::<u8>::empty(),
    decreases bytes.len(),
{
    if bytes.len() == 0 {
        assert(start + bytes == start);
    } else {
        let before = bytes.drop_last();
        assert forall|i: int| 0 <= i < before.len() implies #[trigger] before[i] != 0 by {
            assert(before[i] == bytes[i]);
        }
        decoder_collects(start, before, prompting);
        assert(bytes.last() == bytes[bytes.len() - 1]);
        assert((start + before).push(bytes.last()) == start + bytes);
        assert(Seq::<u8>::empty() + Seq::<u8>::empty() == Seq::<u8>::empty());
    }
}

/// A client shows an answer that a server framed, whole and once, and is back in the board's
/// output after it. The answer must not hold a NUL character.
pub proof fn answers_are_read_back(response: Seq<char>, prompting: bool)
    requires
        forall|i: int| 0 <= i < response.len() ==> #[trigger] response[i] != '\0',
    ensures
        DecoderView::Plain.after_all(framed(response)) is Plain,
        DecoderView::Plain.shows_all(framed(response), prompting) == encode_utf8(
            response_text(response, prompting),
        ),
{
    let bytes = encode_utf8(response);
    let head = seq![0u8, 82u8];
    let end = seq![0u8];
    assert forall|i: int| 0 <= i < response.len() implies #[trigger] response[i] as u32
        != 0u8 as u32 by {
        if response[i] as u32 == 0 {
            char_u32_cast(response[i], 0);
        }
    }
    encoding_has_no_other_ascii(response, 0);
    encode_utf8_valid_utf8(response);
    encode_utf8_decode_utf8(response);
    assert(decoded(bytes) == response);
    reveal_with_fuel(DecoderView::after_all, 3);
    reveal_with_fuel(DecoderView::shows_all, 3);
    assert(head.drop_last() == seq![0u8]);
    assert(head.drop_last().drop_last() == Seq::<u8>::empty());
    assert(end.drop_last() == Seq::<u8>::empty());
    let opened = DecoderView::Response { bytes: Seq::empty() };
    assert(DecoderView::Plain.after_all(head) == opened);
    assert(DecoderView::Plain.shows_all(head, prompting) == Seq::<u8>::empty());
    decoder_concat(DecoderView::Plain, head, bytes, prompting);
    decoder_collects(Seq::empty(), bytes, prompting);
    assert(Seq::<u8>::empty() + bytes == bytes);
    decoder_concat(DecoderView::Plain, head + bytes, end, prompting);
    assert(DecoderView::Plain.shows_all(framed(response), prompting) == encode_utf8(
        response_text(response, prompting),
    ));
}

/// Board output without NUL bytes is shown as it is.
pub proof fn board_output_is_shown_as_it_is(bytes: Seq<u8>, prompting: bool)
    requires
        forall|i: int| 0 <= i < bytes.len() ==> #[trigger] bytes[i] != 0,
    ensures
        DecoderView::Plain.after_all(bytes) is Plain,
        DecoderView::Plain.shows_all(bytes, prompting) == bytes,
    decreases bytes.len(),
{
    if bytes.len() > 0 {
        let before = bytes.drop_last();
        assert forall|i: int| 0 <= i < before.len() implies #[trigger] before[i] != 0 by {
            assert(before[i] == bytes[i]);
        }
        board_output_is_shown_as_it_is(before, prompting);
        assert(bytes.last() == bytes[bytes.len() - 1]);
        assert(before + seq![bytes.last()] == bytes);
    }
}

proof fn session_concat(session: SessionView, a: Seq<u8>, b: Seq<u8>)
    ensures
        session.after_all(a + b) == session.after_all(a).after_all(b),
    decreases b.len(),
{
    if b.len() == 0 {
        assert(a + b == a);
    } else {
        assert((a + b).drop_last() == a + b.drop_last());
        assert((a + b).last() == b.last());
        session_concat(session, a, b.drop_last());
    }
}

proof fn session_collects(session: SessionView, start: Seq<u8>, bytes: Seq<u8>)
    requires
        session.command == Some(start),
        forall|i: int| 0 <= i < bytes.len() ==> !ends_line(#[trigger] bytes[i]),
    ensures
        session.after_all(bytes) == (SessionView { command: Some(start + bytes), ..session }),
    decreases bytes.len(),
{
    if bytes.len() == 0 {
        assert(start + bytes == start);
    } else {
        let before = bytes.drop_last();
        assert forall|i: int| 0 <= i < before.len() implies !ends_line(#[trigger] before[i]) by {
            assert(before[i] == bytes[i]);
        }
        session_collects(session, start, before);
        assert(bytes.last() == bytes[bytes.len() - 1]);
        assert((start + before).push(bytes.last()) == start + bytes);
    }
}

/// A text that is one line: without a line feed and without a carriage return.
pub open spec fn single_line(text: Seq<char>) -> bool {
    forall|i: int| 0 <= i < text.len() ==> #[trigger] text[i] != '\n' && text[i] != '\r'
}

/// A command line that a client sends reaches the server whole: its last byte makes the server
/// execute the command, or hold output back or let it through where the command says so.
pub proof fn commands_are_read_back(session: SessionView, text: Seq<char>)
    requires
        session.command is None,
        single_line(text),
    ensures
        ({
            let frame = command_frame(text);
            let before = session.after_all(frame.drop_last());
            let after = session.after_all(frame);
            &&& after.command is None
            &&& trim(text) == mute_command() ==> after.muted
            &&& trim(text) == unmute_command() ==> !after.muted
            &&& trim(text) != mute_command() && trim(text) != unmute_command() ==> {
                &&& after == session
                &&& before.action(frame.last()) == (SessionActionView::Execute {
                    command: trim(text),
                })
            }
        }),
{
    reveal_strlit("\0");
    reveal_strlit("\n");
    let bytes = encode_utf8(text);
    let frame = command_frame(text);
    assert("\0"@ == seq!['\0']);
    assert("\n"@ == seq!['\n']);
    encode_concat("\0"@ + text, "\n"@);
    encode_concat("\0"@, text);
    encode_one('\0', 0);
    encode_one('\n', 10);
    let opening = seq![0u8];
    assert(frame == opening + bytes + seq![10u8]);
    assert(frame.drop_last() == opening + bytes);
    assert(frame.last() == 10);
    assert forall|i: int| 0 <= i < text.len() implies #[trigger] text[i] as u32 != 10u8 as u32 by {
        if text[i] as u32 == 10 {
            char_u32_cast(text[i], 10);
        }
    }
    assert forall|i: int| 0 <= i < text.len() implies #[trigger] text[i] as u32 != 13u8 as u32 by {
        if text[i] as u32 == 13 {
            char_u32_cast(text[i], 13);
        }
    }
    encoding_has_no_other_ascii(text, 10);
    encoding_has_no_other_ascii(text, 13);
    assert(opening.drop_last() == Seq::<u8>::empty());
    assert(session.after_all(opening.drop_last()) == session);
    let opened = SessionView { command: Some(Seq::empty()), ..session };
    assert(session.after_all(opening) == opened);
    session_concat(session, opening, bytes);
    session_collects(opened, Seq::empty(), bytes);
    assert(Seq::<u8>::empty() + bytes == bytes);
    encode_utf8_valid_utf8(text);
    encode_utf8_decode_utf8(text);
    reveal_strlit("__rpictl_on");
    reveal_strlit("__rpictl_off");
    assert(mute_command().len() == 11);
    assert(unmute_command().len() == 12);
}

/// What a client types for the board, apart from NUL bytes, reaches it as it is: the server
/// forwards each byte and stays as it is.
pub proof fn board_input_is_forwarded(session: SessionView, byte: u8)
    requires
        session.command is None,
        byte != 0,
    ensures
        session.action(byte) == (SessionActionView::Forward { byte }),
        session.after(byte) == session,
{
}

proof fn words_of_one(s: Seq<char>)
    requires
        one_word(s),
    ensures
        words(s) == seq![s],
    decreases s.len(),
{
    let before = s.drop_last();
    assert(s.last() == s[s.len() - 1]);
    if s.len() == 1 {
        assert(before == Seq::<char>::empty());
        assert(words_by(before, |c: char| white(c)) == Seq::<Seq<char>>::empty());
        assert(seq![s.last()] == s);
        assert(words(s) == seq![s]);
    } else {
        assert forall|i: int| 0 <= i < before.len() implies !white(#[trigger] before[i]) by {
            assert(before[i] == s[i]);
        }
        words_of_one(before);
        assert(!white(s[s.len() - 2]));
        assert(words(before).last().push(s.last()) == s);
        assert(words(s) == seq![s]);
    }
}

proof fn words_of_two(a: Seq<char>, b: Seq<char>)
    requires
        one_word(a),
        one_word(b),
    ensures
        words(a + seq![' '] + b) == seq![a, b],
    decreases b.len(),
{
    let s = a + seq![' '] + b;
    assert(s.last() == b[b.len() - 1]);
    if b.len() == 1 {
        let spaced = a + seq![' '];
        assert(s.drop_last() == spaced);
        assert(spaced.drop_last() == a);
        assert(spaced.last() == ' ');
        words_of_one(a);
        assert(words(spaced) == words(a));
        assert(s[s.len() - 2] == ' ');
        assert(seq![s.last()] == b);
        assert(words(s) == seq![a, b]);
    } else {
        let before = b.drop_last();
        assert forall|i: int| 0 <= i < before.len() implies !white(#[trigger] before[i]) by {
            assert(before[i] == b[i]);
        }
        words_of_two(a, before);
        assert(s.drop_last() == a + seq![' '] + before);
        assert(s[s.len() - 2] == b[b.len() - 2]);
        assert(before.push(s.last()) == b);
        assert(words(s) == seq![a, b]);
    }
}

/// A text that begins and ends with other characters than whitespace is not trimmed, and a line
/// feed at its end is.
proof fn trims_to(s: Seq<char>)
    requires
        s.len() > 0,
        !white(s.first()),
        !white(s.last()),
    ensures
        trim(s) == s,
        trim(s + seq!['\n']) == s,
{
    let ended = s + seq!['\n'];
    assert(ended.first() == s.first());
    assert(ended.last() == '\n');
    assert(ended.drop_last() == s);
}

/// Every command that a client sends on is one that the server knows.
pub proof fn remote_commands_are_known(text: Seq<char>)
    requires
        remote_command(text),
    ensures
        command_of(words(text)) is Change || command_of(words(text)) is Status || command_of(
            words(text),
        ) is State,
{
    reveal_strlit("poweron");
    reveal_strlit("poweroff");
    reveal_strlit("poweroff --force");
    reveal_strlit("poweroff -f");
    reveal_strlit("--force");
    reveal_strlit("-f");
    reveal_strlit("powercycle");
    reveal_strlit("powerstatus");
    reveal_strlit("power");
    reveal_strlit("state");
    if text == "poweroff --force"@ {
        assert(text == "poweroff"@ + seq![' '] + "--force"@);
        words_of_two("poweroff"@, "--force"@);
    } else if text == "poweroff -f"@ {
        assert(text == "poweroff"@ + seq![' '] + "-f"@);
        words_of_two("poweroff"@, "-f"@);
    } else {
        words_of_one(text);
    }
}

/// A server reads in a client's first line what the client wants, where the board's id and the
/// power action are each one word.
pub proof fn handshakes_are_read_back(wish: HandshakeView)
    requires
        match wish {
            HandshakeView::Power { action, board_id } => one_word(action) && one_word(board_id),
            HandshakeView::Console { board_id } => one_word(board_id),
            HandshakeView::Monitor { board_id } => one_word(board_id),
        },
    ensures
        handshake_of(first_line(wish)) == wish,
{
    reveal_strlit("POWER ");
    reveal_strlit("CONSOLE ");
    reveal_strlit("MONITOR ");
    reveal_strlit(" ");
    reveal_strlit("\n");
    assert(" "@ == seq![' ']);
    assert("\n"@ == seq!['\n']);
    match wish {
        HandshakeView::Power { action, board_id } => {
            let text = "POWER "@ + action + " "@ + board_id;
            assert(first_line(wish) == text + seq!['\n']);
            assert(text.first() == 'P');
            assert(text.last() == board_id[board_id.len() - 1]);
            trims_to(text);
            assert(text.subrange(0, 6) == "POWER "@);
            assert(occurs_at(text, "POWER "@, 0));
            let rest = action + seq![' '] + board_id;
            assert(text.skip(6) == rest);
            words_of_two(action, board_id);
            assert(item(words(rest), 0) == action);
            assert(item(words(rest), 1) == board_id);
        },
        HandshakeView::Console { board_id } => {
            let text = "CONSOLE "@ + board_id;
            assert(first_line(wish) == text + seq!['\n']);
            assert(text.first() == 'C');
            assert(text.last() == board_id[board_id.len() - 1]);
            trims_to(text);
            assert(text.subrange(0, 8) == "CONSOLE "@);
            assert(occurs_at(text, "CONSOLE "@, 0));
            assert(text.subrange(0, 6)[0] == 'C');
            assert("POWER "@[0] == 'P');
            assert(!occurs_at(text, "POWER "@, 0));
            assert(text.skip(8) == board_id);
            assert(board_id.first() == board_id[0]);
            trims_to(board_id);
        },
        HandshakeView::Monitor { board_id } => {
            let text = "MONITOR "@ + board_id;
            assert(first_line(wish) == text + seq!['\n']);
            assert(text.first() == 'M');
            assert(text.last() == board_id[board_id.len() - 1]);
            trims_to(text);
            assert(text.subrange(0, 8) == "MONITOR "@);
            assert(occurs_at(text, "MONITOR "@, 0));
            assert(text.subrange(0, 6)[0] == 'M');
            assert(text.subrange(0, 8)[0] == 'M');
            assert("POWER "@[0] == 'P');
            assert("CONSOLE "@[0] == 'C');
            assert(!occurs_at(text, "POWER "@, 0));
            assert(!occurs_at(text, "CONSOLE "@, 0));
            assert(text.skip(8) == board_id);
            assert(board_id.first() == board_id[0]);
            trims_to(board_id);
        },
    }
}

/// The id of every board in a valid configuration is one word.
pub proof fn board_ids_are_words(id: Seq<char>)
    requires
        valid_id(id),
    ensures
        one_word(id),
{
}

} // verus!
