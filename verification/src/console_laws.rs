//! What becomes of the keys that are pressed at a console, from the client to the board.

use vstd::prelude::*;
use vstd::utf8::{decode_utf8, encode_utf8, valid_utf8};

use crate::console::{
    change_failed, change_made, command_frame, command_of, entered, handles, handshake_of,
    help_text, is_change, item, power_action, remote_command, serves, status_text, ClientView,
    ConsoleCommand, DecoderView, HandshakeView, PowerAction, PowerChange, SessionActionView,
    SessionView, Work,
};
use crate::plan_laws::{
    graceful_power_off_syncs_and_shuts_down, sent, switched, switches_do_just_that,
};
use crate::power::{ObservationView, PowerGoal};
use crate::procedure::Operation;
use crate::protocol::{
    answers_are_read_back, commands_are_read_back, encode_first, frames_have_one_end, single_line,
};
use crate::registry::{board_not_found, Board};
use crate::text::{occurs_at, quoted, trim, white, words};

verus! {

/// While keys go to the board, every key but Ctrl+] is sent as exactly that one byte, with
/// nothing shown, and leaves the client as it is.
pub proof fn board_keys_are_sent_as_they_are(client: ClientView, key: u8)
    requires
        !client.commanding,
        key != 0x1d,
    ensures
        client.effect(key).send == seq![key],
        client.effect(key).show.len() == 0,
        !client.effect(key).leave,
        client.after(key) == client,
{
}

/// The client's end after some keys.
pub open spec fn pressed(client: ClientView, keys: Seq<u8>) -> ClientView
    decreases keys.len(),
{
    if keys.len() == 0 {
        client
    } else {
        pressed(client, keys.drop_last()).after(keys.last())
    }
}

/// What the client sends for some keys.
pub open spec fn sends(client: ClientView, keys: Seq<u8>) -> Seq<u8>
    decreases keys.len(),
{
    if keys.len() == 0 {
        Seq::empty()
    } else {
        sends(client, keys.drop_last()) + pressed(client, keys.drop_last()).effect(keys.last()).send
    }
}

/// What the server writes to the board for some bytes from the client.
pub open spec fn forwarded(session: SessionView, bytes: Seq<u8>) -> Seq<u8>
    decreases bytes.len(),
{
    if bytes.len() == 0 {
        Seq::empty()
    } else {
        match session.after_all(bytes.drop_last()).action(bytes.last()) {
            SessionActionView::Forward { byte } => forwarded(session, bytes.drop_last()).push(byte),
            _ => forwarded(session, bytes.drop_last()),
        }
    }
}

/// Keys that go to the board: neither Ctrl+] nor NUL.
pub open spec fn board_keys(keys: Seq<u8>) -> bool {
    forall|i: int| 0 <= i < keys.len() ==> #[trigger] keys[i] != 0x1d && keys[i] != 0
}

/// The bytes written to the board are the keys pressed: the client sends them as they are, and
/// the server forwards them as they are. Both ends stay as they were.
pub proof fn keys_pressed_reach_the_board(client: ClientView, session: SessionView, keys: Seq<u8>)
    requires
        !client.commanding,
        session.command is None,
        board_keys(keys),
    ensures
        forwarded(session, sends(client, keys)) == keys,
        sends(client, keys) == keys,
        pressed(client, keys) == client,
        session.after_all(sends(client, keys)) == session,
    decreases keys.len(),
{
    if keys.len() > 0 {
        let before = keys.drop_last();
        assert forall|i: int| 0 <= i < before.len() implies #[trigger] before[i] != 0x1d
            && before[i] != 0 by {
            assert(before[i] == keys[i]);
        }
        keys_pressed_reach_the_board(client, session, before);
        assert(keys.last() == keys[keys.len() - 1]);
        board_keys_are_sent_as_they_are(client, keys.last());
        assert(before + seq![keys.last()] == keys);
        assert(sends(client, keys).drop_last() == before);
        assert(before.push(keys.last()) == keys);
    }
}

/// While keys go to the command line, nothing is sent until the line ends. A key that is no
/// control key is shown and added to the line; backspace and delete take the last one away;
/// other control keys do nothing.
pub proof fn command_keys_stay_on_the_line(client: ClientView, key: u8)
    requires
        client.commanding,
        key != 0x1d,
        key != 10,
        key != 13,
    ensures
        client.effect(key).send.len() == 0,
        !client.effect(key).leave,
        client.after(key).commanding,
        key >= 0x20 && key != 0x7f ==> client.after(key).command == client.command.push(
            key as char,
        ) && client.effect(key).show == seq![key],
        key == 0x08 || key == 0x7f ==> client.after(key).command == if client.command.len() > 0 {
            client.command.subrange(0, client.command.len() - 1)
        } else {
            client.command
        },
        key == 0x08 || key == 0x7f ==> client.effect(key).show == if client.command.len() > 0 {
            seq![0x08u8, 0x20u8, 0x08u8]
        } else {
            Seq::empty()
        },
        key < 0x20 && key != 0x08 ==> client.after(key) == client && client.effect(key).show.len()
            == 0,
{
}

/// Backspace undoes a key of the command line.
pub proof fn backspace_undoes_a_key(client: ClientView, key: u8, back: u8)
    requires
        client.commanding,
        key >= 0x20,
        key != 0x7f,
        back == 0x08 || back == 0x7f,
    ensures
        client.after(key).after(back) == client,
{
    assert(client.command.push(key as char).drop_last() == client.command);
}

/// Ctrl+] changes between the board and an empty command line, and twice changes back. What it
/// sends makes the server hold the board's output back exactly while the client is on its
/// command line, and writes nothing to the board.
pub proof fn the_escape_key_changes_sides(client: ClientView, session: SessionView)
    requires
        session.command is None,
    ensures
        client.after(0x1d).commanding == !client.commanding,
        client.after(0x1d).command.len() == 0,
        client.after(0x1d).after(0x1d).commanding == client.commanding,
        !client.effect(0x1d).leave,
        session.after_all(client.effect(0x1d).send).muted == client.after(0x1d).commanding,
        session.after_all(client.effect(0x1d).send).command is None,
        forwarded(session, client.effect(0x1d).send).len() == 0,
{
    reveal_strlit("__rpictl_on");
    reveal_strlit("__rpictl_off");
    let on = "__rpictl_on"@;
    let off = "__rpictl_off"@;
    assert(trim(on) == on) by {
        assert(on.first() == '_' && on.last() == 'n');
    }
    assert(trim(off) == off) by {
        assert(off.first() == '_' && off.last() == 'f');
    }
    commands_are_read_back(session, on);
    commands_are_read_back(session, off);
    frames_write_nothing(session, on);
    frames_write_nothing(session, off);
}

proof fn frames_begin_with_nul(text: Seq<char>)
    ensures
        command_frame(text).len() > 0,
        command_frame(text)[0] == 0,
{
    reveal_strlit("\0");
    reveal_strlit("\n");
    let all = "\0"@ + text + "\n"@;
    assert(all[0] == '\0');
    encode_first(all, 0);
}

proof fn open_commands_write_nothing(session: SessionView, bytes: Seq<u8>, n: int)
    requires
        session.command is None,
        0 < n <= bytes.len(),
        bytes[0] == 0,
        forall|i: int| 0 < i < bytes.len() - 1 ==> #[trigger] bytes[i] != 10 && bytes[i] != 13,
    ensures
        forwarded(session, bytes.take(n)).len() == 0,
        n < bytes.len() ==> session.after_all(bytes.take(n)).command is Some,
    decreases n,
{
    let part = bytes.take(n);
    assert(part.drop_last() == bytes.take(n - 1));
    assert(part.last() == bytes[n - 1]);
    if n == 1 {
        assert(bytes.take(0) == Seq::<u8>::empty());
        assert(session.after_all(bytes.take(0)) == session);
        assert(forwarded(session, bytes.take(0)).len() == 0);
    } else {
        open_commands_write_nothing(session, bytes, n - 1);
    }
}

proof fn frames_write_nothing(session: SessionView, text: Seq<char>)
    requires
        session.command is None,
        single_line(text),
    ensures
        forwarded(session, command_frame(text)).len() == 0,
{
    let frame = command_frame(text);
    frames_begin_with_nul(text);
    frames_have_one_end(text);
    open_commands_write_nothing(session, frame, frame.len() as int);
    assert(frame.take(frame.len() as int) == frame);
}

/// What keys that are printable characters of ASCII read as text.
pub open spec fn text_of(keys: Seq<u8>) -> Seq<char> {
    keys.map_values(|key: u8| key as char)
}

/// Keys that are printable characters of ASCII.
pub open spec fn printable(keys: Seq<u8>) -> bool {
    forall|i: int| 0 <= i < keys.len() ==> 0x20 <= #[trigger] keys[i] < 0x7f
}

proof fn typing_fills_the_line(client: ClientView, keys: Seq<u8>)
    requires
        client.commanding,
        printable(keys),
    ensures
        pressed(client, keys) == (ClientView {
            command: client.command + text_of(keys),
            ..client
        }),
        sends(client, keys).len() == 0,
    decreases keys.len(),
{
    if keys.len() == 0 {
        assert(client.command + text_of(keys) == client.command);
    } else {
        let before = keys.drop_last();
        assert forall|i: int| 0 <= i < before.len() implies 0x20 <= #[trigger] before[i] < 0x7f by {
            assert(before[i] == keys[i]);
        }
        typing_fills_the_line(client, before);
        assert(keys.last() == keys[keys.len() - 1]);
        assert((client.command + text_of(before)).push(keys.last() as char) == client.command
            + text_of(keys));
    }
}

/// The commands that the server executes for a client.
pub open spec fn for_the_server(text: Seq<char>) -> bool {
    ||| text == "poweron"@
    ||| text == "poweroff"@
    ||| text == "poweroff --force"@
    ||| text == "poweroff -f"@
    ||| text == "powercycle"@
    ||| text == "powerstatus"@
    ||| text == "power"@
    ||| text == "state"@
}

/// A command that is typed and ended with return or line feed is executed by the server where it
/// is one for the server: exactly that command, whitespace around it aside, with nothing written
/// to the board. Any other is not sent. The client leaves exactly at `exit` and `quit`, and has
/// an empty command line again.
pub proof fn typed_commands_are_executed(
    client: ClientView,
    session: SessionView,
    keys: Seq<u8>,
    end: u8,
)
    requires
        client.commanding,
        client.command.len() == 0,
        session.command is None,
        printable(keys),
        end == 10 || end == 13,
    ensures
        ({
            let typed = pressed(client, keys);
            let command = trim(text_of(keys));
            let send = typed.effect(end).send;
            let before = session.after_all(send.drop_last());
            &&& sends(client, keys).len() == 0
            &&& typed.after(end) == client
            &&& typed.effect(end).leave <==> command == "exit"@ || command == "quit"@
            &&& !for_the_server(command) ==> send.len() == 0
            &&& for_the_server(command) ==> {
                &&& send.len() > 0
                &&& before.action(send.last()) == (SessionActionView::Execute { command })
                &&& session.after_all(send) == session
                &&& forwarded(session, send).len() == 0
            }
        }),
{
    typing_fills_the_line(client, keys);
    assert(client.command + text_of(keys) == text_of(keys));
    assert(client.command == Seq::<char>::empty());
    let command = trim(text_of(keys));
    commands_differ(command);
    if for_the_server(command) {
        remote_lines(command);
        commands_are_read_back(session, command);
        frames_write_nothing(session, command);
        frames_begin_with_nul(command);
    }
}

/// What is shown where a command line ends begins on a new line. Where the client stays on its
/// command line and nothing is sent, a prompt follows: after the help, after what is said of a
/// command that is not known, or at once where nothing was typed.
pub proof fn lines_end_with_a_prompt(text: Seq<char>)
    ensures
        ({
            let prompt = "\x1b[36mrpictl> \x1b[0m"@;
            let show = entered(text).show;
            &&& text == "exit"@ || text == "quit"@ || for_the_server(text) ==> show == encode_utf8(
                "\r\n"@,
            )
            &&& text.len() == 0 ==> show == encode_utf8("\r\n"@ + prompt)
            &&& text == "help"@ ==> show == encode_utf8(
                "\r\n"@ + help_text() + "\r\n"@ + prompt,
            )
            &&& text.len() > 0 && text != "exit"@ && text != "quit"@ && text != "help"@
                && !for_the_server(text) ==> show == encode_utf8(
                "\r\n"@ + ("Unknown command: "@ + text
                    + ". Type help for available commands."@) + "\r\n"@ + prompt,
            )
        }),
{
    commands_differ(text);
    reveal_strlit("exit");
    reveal_strlit("quit");
    reveal_strlit("help");
    assert("exit"@.len() == 4 && "exit"@[0] == 'e');
    assert("quit"@.len() == 4 && "quit"@[0] == 'q');
    assert("help"@.len() == 4 && "help"@[0] == 'h');
}

proof fn commands_differ(command: Seq<char>)
    ensures
        for_the_server(command) ==> command != "exit"@ && command != "quit"@ && command != "help"@
            && command.len() > 0 && command != "__rpictl_on"@ && command != "__rpictl_off"@,
{
    reveal_strlit("poweron");
    reveal_strlit("poweroff");
    reveal_strlit("poweroff --force");
    reveal_strlit("poweroff -f");
    reveal_strlit("powercycle");
    reveal_strlit("powerstatus");
    reveal_strlit("power");
    reveal_strlit("state");
    reveal_strlit("exit");
    reveal_strlit("quit");
    reveal_strlit("help");
    reveal_strlit("__rpictl_on");
    reveal_strlit("__rpictl_off");
    assert("exit"@[0] == 'e');
    assert("quit"@[0] == 'q');
    assert("help"@[0] == 'h');
    assert("__rpictl_on"@[0] == '_');
    assert("__rpictl_off"@[0] == '_');
    if for_the_server(command) {
        assert(command[0] == 'p' || command[0] == 's');
    }
}

proof fn remote_lines(command: Seq<char>)
    requires
        for_the_server(command),
    ensures
        remote_command(command),
        single_line(command),
        trim(command) == command,
{
    reveal_strlit("poweron");
    reveal_strlit("poweroff");
    reveal_strlit("poweroff --force");
    reveal_strlit("poweroff -f");
    reveal_strlit("powercycle");
    reveal_strlit("powerstatus");
    reveal_strlit("power");
    reveal_strlit("state");
    assert(command.len() > 0);
    assert(!white(command[0]));
    assert(!white(command[command.len() - 1]));
}

/// While a command is open, no byte is written to the board. A command that is not valid UTF-8
/// is rejected when it ends, and changes nothing else.
pub proof fn open_commands_are_not_forwarded(session: SessionView, bytes: Seq<u8>, byte: u8)
    requires
        session.command == Some(bytes),
    ensures
        session.action(byte) !is Forward,
        byte != 10 && byte != 13 ==> session.action(byte) is Nothing && session.after(byte) == (
        SessionView { command: Some(bytes.push(byte)), ..session }),
        (byte == 10 || byte == 13) && !valid_utf8(bytes) ==> session.action(byte) is Reject
            && session.after(byte) == (SessionView { command: None, ..session }),
        (byte == 10 || byte == 13) && valid_utf8(bytes) ==> (session.action(byte) is Execute
            <==> trim(decode_utf8(bytes)) != "__rpictl_on"@ && trim(decode_utf8(bytes))
            != "__rpictl_off"@),
{
}

/// A NUL byte of the board's output is shown as well, with the byte after it, unless that is the
/// letter that opens an answer.
pub proof fn nul_bytes_are_shown(byte: u8, prompting: bool)
    requires
        byte != 82,
    ensures
        DecoderView::Plain.shows_all(seq![0u8, byte], prompting) == seq![0u8, byte],
        DecoderView::Plain.after_all(seq![0u8, byte]) is Plain,
{
    let both = seq![0u8, byte];
    assert(both.drop_last() == seq![0u8]);
    assert(seq![0u8].drop_last() == Seq::<u8>::empty());
    reveal_with_fuel(DecoderView::after_all, 3);
    reveal_with_fuel(DecoderView::shows_all, 3);
    assert(DecoderView::Plain.shows_all(seq![0u8], prompting) == Seq::<u8>::empty());
}

/// An answer stands between a NUL byte with the letter R and another NUL byte, and is shown in
/// colour behind the name of the program, with a prompt after it exactly while the client is on
/// its command line.
pub proof fn answers_are_shown_once(response: Seq<char>, prompting: bool)
    requires
        forall|i: int| 0 <= i < response.len() ==> #[trigger] response[i] != '\0',
    ensures
        DecoderView::Plain.shows_all(
            seq![0u8, 82u8] + encode_utf8(response) + seq![0u8],
            prompting,
        ) == encode_utf8(
            "\x1b[36m[rpictl] "@ + response + "\x1b[0m\r\n"@ + if prompting {
                "\x1b[36mrpictl> \x1b[0m"@
            } else {
                Seq::empty()
            },
        ),
{
    answers_are_read_back(response, prompting);
    assert("\x1b[36m[rpictl] "@ + response + "\x1b[0m\r\n"@ + Seq::<char>::empty()
        == "\x1b[36m[rpictl] "@ + response + "\x1b[0m\r\n"@);
}

/// `text` is `head` with something after it.
pub open spec fn begins_with(text: Seq<char>, head: Seq<char>) -> bool {
    text.len() >= head.len() && text.subrange(0, head.len() as int) == head
}

/// What a client wants goes by the keyword at the beginning of its first line; without one, the
/// line names the board to watch.
pub proof fn keywords_decide_what_is_wanted(line: Seq<char>)
    ensures
        ({
            let text = trim(line);
            &&& begins_with(text, "POWER "@) ==> handshake_of(line) == (HandshakeView::Power {
                action: item(words(text.subrange(6, text.len() as int)), 0),
                board_id: item(words(text.subrange(6, text.len() as int)), 1),
            })
            &&& begins_with(text, "CONSOLE "@) ==> handshake_of(line) == (HandshakeView::Console {
                board_id: trim(text.subrange(8, text.len() as int)),
            })
            &&& begins_with(text, "MONITOR "@) ==> handshake_of(line) == (HandshakeView::Monitor {
                board_id: trim(text.subrange(8, text.len() as int)),
            })
            &&& !begins_with(text, "POWER "@) && !begins_with(text, "CONSOLE "@) && !begins_with(
                text,
                "MONITOR "@,
            ) ==> handshake_of(line) == (HandshakeView::Monitor { board_id: text })
        }),
{
    reveal_strlit("POWER ");
    reveal_strlit("CONSOLE ");
    reveal_strlit("MONITOR ");
    let text = trim(line);
    assert("POWER "@.len() == 6);
    assert("CONSOLE "@.len() == 8);
    assert("MONITOR "@.len() == 8);
    if begins_with(text, "POWER "@) {
        assert(text.subrange(0, 6)[0] == 'P');
    }
    if begins_with(text, "CONSOLE "@) {
        assert(text.subrange(0, 8)[0] == 'C');
        assert(text[0] == 'C');
        if occurs_at(text, "POWER "@, 0) {
            assert(text.subrange(0, 6)[0] == 'P');
        }
    }
    if begins_with(text, "MONITOR "@) {
        assert(text.subrange(0, 8)[0] == 'M');
        assert(text[0] == 'M');
        if occurs_at(text, "POWER "@, 0) {
            assert(text.subrange(0, 6)[0] == 'P');
        }
        if occurs_at(text, "CONSOLE "@, 0) {
            assert(text.subrange(0, 8)[0] == 'C');
        }
    }
}

/// Each word of a power request asks for its change, and no other word asks for one.
pub proof fn power_words_ask_for_their_change(word: Seq<char>)
    ensures
        power_action(word) == Some(PowerAction::Change { change: PowerChange::On }) <==> word
            == "on"@,
        power_action(word) == Some(PowerAction::Change { change: PowerChange::Off }) <==> word
            == "off"@,
        power_action(word) == Some(PowerAction::Change { change: PowerChange::ForceOff }) <==> word
            == "force-off"@ || word == "off-force"@,
        power_action(word) == Some(PowerAction::Change { change: PowerChange::Cycle }) <==> word
            == "cycle"@,
        power_action(word) == Some(PowerAction::Status) <==> word == "status"@,
{
    reveal_strlit("on");
    reveal_strlit("off");
    reveal_strlit("force-off");
    reveal_strlit("off-force");
    reveal_strlit("cycle");
    reveal_strlit("status");
    assert("on"@.len() == 2);
    assert("off"@.len() == 3);
    assert("force-off"@.len() == 9 && "force-off"@[0] == 'f');
    assert("off-force"@.len() == 9 && "off-force"@[0] == 'o');
    assert("cycle"@.len() == 5);
    assert("status"@.len() == 6);
}

/// Each command of the console asks for its change, and no other asks for one.
pub proof fn console_words_ask_for_their_change(list: Seq<Seq<char>>)
    ensures
        command_of(list) == (ConsoleCommand::Change { change: PowerChange::On }) <==> list
            == seq!["poweron"@],
        command_of(list) == (ConsoleCommand::Change { change: PowerChange::Off }) <==> list
            == seq!["poweroff"@],
        command_of(list) == (ConsoleCommand::Change { change: PowerChange::ForceOff }) <==> list
            == seq!["poweroff"@, "--force"@] || list == seq!["poweroff"@, "-f"@],
        command_of(list) == (ConsoleCommand::Change { change: PowerChange::Cycle }) <==> list
            == seq!["powercycle"@],
        command_of(list) is Status <==> list == seq!["powerstatus"@] || list == seq!["power"@],
        command_of(list) is State <==> list == seq!["state"@],
        command_of(list) is Help <==> list == seq!["help"@],
{
    reveal_strlit("poweron");
    reveal_strlit("poweroff");
    reveal_strlit("powercycle");
    reveal_strlit("powerstatus");
    reveal_strlit("power");
    reveal_strlit("state");
    reveal_strlit("help");
    assert("poweron"@.len() == 7);
    assert("poweroff"@.len() == 8);
    assert("powercycle"@.len() == 10);
    assert("powerstatus"@.len() == 11);
    assert("power"@.len() == 5 && "power"@[0] == 'p');
    assert("state"@.len() == 5 && "state"@[0] == 's');
    assert("help"@.len() == 4);
    let a = seq!["poweron"@];
    let b = seq!["poweroff"@];
    let c = seq!["powercycle"@];
    let d = seq!["powerstatus"@];
    let e = seq!["power"@];
    let f = seq!["state"@];
    let g = seq!["help"@];
    let h = seq!["poweroff"@, "--force"@];
    let i = seq!["poweroff"@, "-f"@];
    assert(a[0] == "poweron"@ && a.len() == 1);
    assert(b[0] == "poweroff"@ && b.len() == 1);
    assert(c[0] == "powercycle"@ && c.len() == 1);
    assert(d[0] == "powerstatus"@ && d.len() == 1);
    assert(e[0] == "power"@ && e.len() == 1);
    assert(f[0] == "state"@ && f.len() == 1);
    assert(g[0] == "help"@ && g.len() == 1);
    assert(h.len() == 2);
    assert(i.len() == 2);
}

/// The operation of a change switches power the way the change says; only a graceful power-off
/// writes to the console first.
pub proof fn changes_switch_power(
    operation: Operation,
    boards: Map<Seq<char>, Board>,
    board_id: Seq<char>,
    change: PowerChange,
)
    requires
        boards.dom().contains(board_id),
        is_change(Ok(operation), boards, board_id, change),
    ensures
        operation@.board_id == board_id,
        change == PowerChange::On ==> switched(operation@.steps) == seq![true],
        change == PowerChange::ForceOff ==> switched(operation@.steps) == seq![false],
        change == PowerChange::Cycle ==> switched(operation@.steps) == seq![false, true],
        change == PowerChange::Off && boards[board_id].profile.linux.shutdown_command is Some
            ==> switched(operation@.steps) == seq![false] && sent(operation@.steps).len() == 2,
        change != PowerChange::Off ==> sent(operation@.steps).len() == 0,
{
    let profile = boards[board_id].profile;
    switches_do_just_that(profile);
    graceful_power_off_syncs_and_shuts_down(profile);
}

/// A power request on a board does what its word says: it has power switched that way, or the
/// controller asked for the state. One with another word, or on no board, is answered with an
/// error and does nothing.
pub proof fn power_requests_do_what_they_say(
    work: Work,
    boards: Map<Seq<char>, Board>,
    board_id: Seq<char>,
    word: Seq<char>,
)
    requires
        serves(work, boards, board_id, word),
    ensures
        boards.dom().contains(board_id) && word == "on"@ ==> (work matches Work::Operate {
            change,
            operation,
        } && change == PowerChange::On && operation@.board_id == board_id && switched(
            operation@.steps,
        ) == seq![true]),
        boards.dom().contains(board_id) && word == "off"@ ==> (work matches Work::Operate {
            change,
            operation,
        } && change == PowerChange::Off && operation@.board_id == board_id
            && operation@.steps[0] is Require),
        boards.dom().contains(board_id) && (word == "force-off"@ || word == "off-force"@) ==> (
        work matches Work::Operate { change, operation } && change == PowerChange::ForceOff
            && operation@.board_id == board_id && switched(operation@.steps) == seq![false]),
        boards.dom().contains(board_id) && word == "cycle"@ ==> (work matches Work::Operate {
            change,
            operation,
        } && change == PowerChange::Cycle && operation@.board_id == board_id && switched(
            operation@.steps,
        ) == seq![false, true]),
        word == "status"@ ==> work !is Operate && (work matches Work::Query { task }
            ==> task@.goal == PowerGoal::Query && boards.dom().contains(board_id)),
        !boards.dom().contains(board_id) ==> (work matches Work::Reply { text } && begins_with(
            text@,
            "err"@,
        )),
        word != "on"@ && word != "off"@ && word != "force-off"@ && word != "off-force"@ && word
            != "cycle"@ && word != "status"@ ==> (work matches Work::Reply { text }
            && begins_with(text@, "err"@)),
{
    power_words_ask_for_their_change(word);
    let missing = board_not_found(board_id).message;
    answers_tell_failure(PowerChange::On, missing);
    answers_tell_failure(PowerChange::Off, missing);
    answers_tell_failure(PowerChange::ForceOff, missing);
    answers_tell_failure(PowerChange::Cycle, missing);
    reveal_strlit("err");
    reveal_strlit("err unknown power action: ");
    let unknown = "err unknown power action: "@ + quoted(word) + "\n"@;
    assert(unknown.subrange(0, 3) == "err"@);
    switches_do_just_that(boards[board_id].profile);
    graceful_power_off_syncs_and_shuts_down(boards[board_id].profile);
}

/// A console command on a board does what its words say: it has power switched that way, or the
/// controller asked for the state, or tells the state that the console shows. One that is not
/// known is answered with itself, and does nothing.
pub proof fn console_commands_do_what_they_say(
    work: Work,
    boards: Map<Seq<char>, Board>,
    board_id: Seq<char>,
    text: Seq<char>,
)
    requires
        handles(work, boards, board_id, text),
    ensures
        boards.dom().contains(board_id) && words(text) == seq!["poweron"@] ==> (
        work matches Work::Operate { change, operation } && change == PowerChange::On
            && operation@.board_id == board_id && switched(operation@.steps) == seq![true]),
        boards.dom().contains(board_id) && words(text) == seq!["poweroff"@] ==> (
        work matches Work::Operate { change, operation } && change == PowerChange::Off
            && operation@.board_id == board_id && operation@.steps[0] is Require),
        boards.dom().contains(board_id) && (words(text) == seq!["poweroff"@, "--force"@] || words(
            text,
        ) == seq!["poweroff"@, "-f"@]) ==> (work matches Work::Operate { change, operation }
            && change == PowerChange::ForceOff && operation@.board_id == board_id && switched(
            operation@.steps,
        ) == seq![false]),
        boards.dom().contains(board_id) && words(text) == seq!["powercycle"@] ==> (
        work matches Work::Operate { change, operation } && change == PowerChange::Cycle
            && operation@.board_id == board_id && switched(operation@.steps) == seq![false, true]),
        words(text) == seq!["powerstatus"@] || words(text) == seq!["power"@] ==> work !is Operate
            && (work matches Work::Query { task } ==> task@.goal == PowerGoal::Query),
        boards.dom().contains(board_id) && words(text) == seq!["state"@] ==> (
        work matches Work::Reply { text: told } && told@ == "Observed board state: "@
            + boards[board_id].current_state().title()),
        !boards.dom().contains(board_id) ==> work is Reply,
        command_of(words(text)) is Unknown ==> (work matches Work::Reply { text: told } && told@
            == "Unknown command: "@ + text + ". Type help for available commands."@),
{
    console_words_ask_for_their_change(words(text));
    switches_do_just_that(boards[board_id].profile);
    graceful_power_off_syncs_and_shuts_down(boards[board_id].profile);
}

/// The answer to a power request begins with `err` exactly where it failed.
pub proof fn answers_tell_failure(change: PowerChange, message: Seq<char>)
    ensures
        begins_with(change_made(change), "ok  "@),
        !begins_with(change_made(change), "err"@),
        begins_with(change_failed(change) + message + "\n"@, "err"@),
        begins_with("ok  power state: "@, "ok  "@),
        begins_with("err power status failed: "@ + message + "\n"@, "err"@),
{
    reveal_strlit("err");
    reveal_strlit("ok  ");
    reveal_strlit("ok  power on succeeded\n");
    reveal_strlit("ok  graceful power off succeeded\n");
    reveal_strlit("ok  forced power off succeeded\n");
    reveal_strlit("ok  power cycle succeeded\n");
    reveal_strlit("err power on failed: ");
    reveal_strlit("err power off failed: ");
    reveal_strlit("err forced power off failed: ");
    reveal_strlit("err power cycle failed: ");
    reveal_strlit("ok  power state: ");
    reveal_strlit("err power status failed: ");
    let made = change_made(change);
    assert(made.subrange(0, 4) == "ok  "@);
    assert(made.subrange(0, 3)[0] == 'o');
    assert("err"@[0] == 'e');
    let failed = change_failed(change) + message + "\n"@;
    assert(failed.subrange(0, 3) == "err"@);
    let status = "err power status failed: "@ + message + "\n"@;
    assert(status.subrange(0, 3) == "err"@);
    assert("ok  power state: "@.subrange(0, 4) == "ok  "@);
}

/// The state and whether it is verified can both be told from how a power state is shown.
pub proof fn statuses_show_state_and_identity(one: ObservationView, other: ObservationView)
    requires
        one.identity_verified,
        !other.identity_verified,
    ensures
        status_text(one) == one.state + " (identity_verified: true)"@,
        status_text(other) == other.state + " (identity_verified: false)"@,
{
    reveal_strlit(" (identity_verified: ");
    reveal_strlit("true");
    reveal_strlit("false");
    reveal_strlit(")");
    reveal_strlit(" (identity_verified: true)");
    reveal_strlit(" (identity_verified: false)");
    assert(status_text(one) == one.state + " (identity_verified: true)"@);
    assert(status_text(other) == other.state + " (identity_verified: false)"@);
}

} // verus!
