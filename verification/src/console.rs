//! The protocol between the server of interactive consoles and its clients, and the two ends of
//! a console session.
//!
//! A client's first line says what it wants. In a console session the client's bytes go to the
//! board, except that a NUL byte opens a command line for the server. The server's answer to a
//! command stands between a NUL byte followed by `R` and another NUL byte.

use vstd::prelude::*;
use vstd::utf8::{decode_utf8, encode_utf8, valid_utf8};

use crate::error::{Error, ErrorView};
use crate::lease::{LeaseGuard, LeaseOutcome, LeaseOwner, OwnerView};
use crate::operations::{
    forced_power_off_steps, fresh_operation_id, graceful_power_off_steps, is_operation_id, is_plan,
    power_cycle_steps, power_on_steps,
};
use crate::power::{task_for, ObservationView, PowerGoal, PowerObservation, PowerTask};
use crate::procedure::Operation;
use crate::registry::{board_not_found, console_taken, Board, BoardRegistry, ConsoleClaim};
use crate::state::BoardState;
use crate::text::{
    copy_bytes, debug_quoted, decode_lossy, decode_strict, decoded, occurs_at, quoted, same,
    starts_with, string_of, strip_prefix, texts, trim, trimmed, words, words_of,
};

verus! {

/// Where the server listens unless told otherwise.
pub const DEFAULT_SOCKET: &'static str = "/tmp/rpictl-mcp.sock";

/// What a client wants, as its first line says it.
#[derive(Debug, PartialEq, Eq)]
pub enum Handshake {
    /// To have power queried or changed.
    Power { action: String, board_id: String },
    /// An interactive console.
    Console { board_id: String },
    /// To watch the console.
    Monitor { board_id: String },
}

/// What a handshake says.
pub enum HandshakeView {
    Power { action: Seq<char>, board_id: Seq<char> },
    Console { board_id: Seq<char> },
    Monitor { board_id: Seq<char> },
}

impl View for Handshake {
    type V = HandshakeView;

    open spec fn view(&self) -> HandshakeView {
        match self {
            Handshake::Power { action, board_id } => HandshakeView::Power {
                action: action@,
                board_id: board_id@,
            },
            Handshake::Console { board_id } => HandshakeView::Console { board_id: board_id@ },
            Handshake::Monitor { board_id } => HandshakeView::Monitor { board_id: board_id@ },
        }
    }
}

/// Element `i` of a list of texts, or the empty text where there is none.
pub open spec fn item(list: Seq<Seq<char>>, i: int) -> Seq<char> {
    if 0 <= i < list.len() {
        list[i]
    } else {
        Seq::empty()
    }
}

/// What a first line says. One without a keyword names the board to watch.
pub open spec fn handshake_of(line: Seq<char>) -> HandshakeView {
    let text = trim(line);
    if occurs_at(text, "POWER "@, 0) {
        let list = words(text.skip("POWER "@.len() as int));
        HandshakeView::Power { action: item(list, 0), board_id: item(list, 1) }
    } else if occurs_at(text, "CONSOLE "@, 0) {
        HandshakeView::Console { board_id: trim(text.skip("CONSOLE "@.len() as int)) }
    } else if occurs_at(text, "MONITOR "@, 0) {
        HandshakeView::Monitor { board_id: trim(text.skip("MONITOR "@.len() as int)) }
    } else {
        HandshakeView::Monitor { board_id: text }
    }
}

fn item_of(list: &Vec<String>, i: usize) -> (text: String)
    ensures
        text@ == item(texts(list@), i as int),
{
    if i < list.len() {
        list[i].clone()
    } else {
        String::new()
    }
}

/// Reads a client's first line.
pub fn parse_handshake(line: &str) -> (handshake: Handshake)
    ensures
        handshake@ == handshake_of(line@),
{
    let text = trimmed(line);
    if let Some(rest) = strip_prefix(text.as_str(), "POWER ") {
        let list = words_of(rest.as_str());
        return Handshake::Power { action: item_of(&list, 0), board_id: item_of(&list, 1) };
    }
    if let Some(rest) = strip_prefix(text.as_str(), "CONSOLE ") {
        return Handshake::Console { board_id: trimmed(rest.as_str()) };
    }
    if let Some(rest) = strip_prefix(text.as_str(), "MONITOR ") {
        return Handshake::Monitor { board_id: trimmed(rest.as_str()) };
    }
    Handshake::Monitor { board_id: text }
}

/// The first line of a client that wants what `wish` says.
pub open spec fn first_line(wish: HandshakeView) -> Seq<char> {
    match wish {
        HandshakeView::Power { action, board_id } => "POWER "@ + action + " "@ + board_id + "\n"@,
        HandshakeView::Console { board_id } => "CONSOLE "@ + board_id + "\n"@,
        HandshakeView::Monitor { board_id } => "MONITOR "@ + board_id + "\n"@,
    }
}

/// Writes a client's first line.
pub fn write_handshake(wish: &Handshake) -> (line: String)
    ensures
        line@ == first_line(wish@),
{
    let mut line = match wish {
        Handshake::Power { action: _, board_id: _ } => "POWER ".to_owned(),
        Handshake::Console { board_id: _ } => "CONSOLE ".to_owned(),
        Handshake::Monitor { board_id: _ } => "MONITOR ".to_owned(),
    };
    match wish {
        Handshake::Power { action, board_id } => {
            line.append(action.as_str());
            line.append(" ");
            line.append(board_id.as_str());
        },
        Handshake::Console { board_id } => {
            line.append(board_id.as_str());
        },
        Handshake::Monitor { board_id } => {
            line.append(board_id.as_str());
        },
    }
    line.append("\n");
    line
}

/// A change of power.
#[derive(Debug, Clone, Copy, PartialEq, Eq, Structural)]
pub enum PowerChange {
    On,
    Off,
    ForceOff,
    Cycle,
}

/// What can be asked of a board's power.
#[derive(Debug, Clone, Copy, PartialEq, Eq, Structural)]
pub enum PowerAction {
    Change { change: PowerChange },
    Status,
}

/// What the word of a power request asks for.
pub open spec fn power_action(word: Seq<char>) -> Option<PowerAction> {
    if word == "on"@ {
        Some(PowerAction::Change { change: PowerChange::On })
    } else if word == "off"@ {
        Some(PowerAction::Change { change: PowerChange::Off })
    } else if word == "force-off"@ || word == "off-force"@ {
        Some(PowerAction::Change { change: PowerChange::ForceOff })
    } else if word == "cycle"@ {
        Some(PowerAction::Change { change: PowerChange::Cycle })
    } else if word == "status"@ {
        Some(PowerAction::Status)
    } else {
        None
    }
}

/// Reads the word of a power request.
pub fn parse_power_action(word: &str) -> (action: Option<PowerAction>)
    ensures
        action == power_action(word@),
{
    if same(word, "on") {
        Some(PowerAction::Change { change: PowerChange::On })
    } else if same(word, "off") {
        Some(PowerAction::Change { change: PowerChange::Off })
    } else if same(word, "force-off") || same(word, "off-force") {
        Some(PowerAction::Change { change: PowerChange::ForceOff })
    } else if same(word, "cycle") {
        Some(PowerAction::Change { change: PowerChange::Cycle })
    } else if same(word, "status") {
        Some(PowerAction::Status)
    } else {
        None
    }
}

/// `result` is the operation that makes the change, or says that there is no such board.
pub open spec fn is_change(
    result: Result<Operation, Error>,
    boards: Map<Seq<char>, Board>,
    board_id: Seq<char>,
    change: PowerChange,
) -> bool {
    let profile = boards[board_id].profile;
    match change {
        PowerChange::On => is_plan(
            result,
            boards,
            board_id,
            "power_on"@,
            None,
            None,
            power_on_steps(),
        ),
        PowerChange::Off => is_plan(
            result,
            boards,
            board_id,
            "power_off"@,
            Some("powered_off"@),
            None,
            graceful_power_off_steps(profile),
        ),
        PowerChange::ForceOff => is_plan(
            result,
            boards,
            board_id,
            "power_off"@,
            Some("powered_off"@),
            None,
            forced_power_off_steps(),
        ),
        PowerChange::Cycle => is_plan(
            result,
            boards,
            board_id,
            "power_cycle"@,
            None,
            None,
            power_cycle_steps(profile),
        ),
    }
}

/// The operation that makes a change. Whoever asks for it on a console has confirmed it.
pub fn change_power(registry: &BoardRegistry, board_id: &str, change: PowerChange) -> (result: Result<
    Operation,
    Error,
>)
    requires
        registry.wf(),
    ensures
        is_change(result, registry@, board_id@, change),
{
    match change {
        PowerChange::On => registry.power_on(board_id),
        PowerChange::Off => registry.graceful_power_off(board_id, true),
        PowerChange::ForceOff => registry.forced_power_off(board_id, true),
        PowerChange::Cycle => registry.power_cycle(board_id, true),
    }
}

/// What a power request is answered when the change was made.
pub open spec fn change_made(change: PowerChange) -> Seq<char> {
    match change {
        PowerChange::On => "ok  power on succeeded\n"@,
        PowerChange::Off => "ok  graceful power off succeeded\n"@,
        PowerChange::ForceOff => "ok  forced power off succeeded\n"@,
        PowerChange::Cycle => "ok  power cycle succeeded\n"@,
    }
}

/// What a power request is answered when the change failed, up to the message.
pub open spec fn change_failed(change: PowerChange) -> Seq<char> {
    match change {
        PowerChange::On => "err power on failed: "@,
        PowerChange::Off => "err power off failed: "@,
        PowerChange::ForceOff => "err forced power off failed: "@,
        PowerChange::Cycle => "err power cycle failed: "@,
    }
}

/// The answer to a request for a change of power.
pub fn change_reply(change: PowerChange, failure: Option<&Error>) -> (reply: String)
    ensures
        reply@ == match failure {
            None => change_made(change),
            Some(error) => change_failed(change) + error.message@ + "\n"@,
        },
{
    match failure {
        None => {
            let text = match change {
                PowerChange::On => "ok  power on succeeded\n",
                PowerChange::Off => "ok  graceful power off succeeded\n",
                PowerChange::ForceOff => "ok  forced power off succeeded\n",
                PowerChange::Cycle => "ok  power cycle succeeded\n",
            };
            text.to_owned()
        },
        Some(error) => {
            let text = match change {
                PowerChange::On => "err power on failed: ",
                PowerChange::Off => "err power off failed: ",
                PowerChange::ForceOff => "err forced power off failed: ",
                PowerChange::Cycle => "err power cycle failed: ",
            };
            let mut reply = text.to_owned();
            reply.append(error.message.as_str());
            reply.append("\n");
            reply
        },
    }
}

/// A power state and whether the controller's identity was verified.
pub open spec fn status_text(observation: ObservationView) -> Seq<char> {
    observation.state + " (identity_verified: "@ + (if observation.identity_verified {
        "true"@
    } else {
        "false"@
    }) + ")"@
}

fn write_status(observation: &PowerObservation) -> (text: String)
    ensures
        text@ == status_text(observation@),
{
    let mut text = observation.state.clone();
    text.append(" (identity_verified: ");
    text.append(
        if observation.identity_verified {
            "true"
        } else {
            "false"
        },
    );
    text.append(")");
    text
}

/// The answer to a request for the power state.
pub fn status_reply(outcome: &Result<PowerObservation, Error>) -> (reply: String)
    ensures
        reply@ == match *outcome {
            Ok(observation) => "ok  power state: "@ + status_text(observation@) + "\n"@,
            Err(error) => "err power status failed: "@ + error.message@ + "\n"@,
        },
{
    let mut reply = match outcome {
        Ok(_) => "ok  power state: ".to_owned(),
        Err(_) => "err power status failed: ".to_owned(),
    };
    match outcome {
        Ok(observation) => {
            reply.append(write_status(observation).as_str());
        },
        Err(error) => {
            reply.append(error.message.as_str());
        },
    }
    reply.append("\n");
    reply
}

/// The answer to a power request with a word that asks for nothing.
pub fn unknown_action_reply(word: &str) -> (reply: String)
    ensures
        reply@ == "err unknown power action: "@ + quoted(word@) + "\n"@,
{
    let mut reply = "err unknown power action: ".to_owned();
    reply.append(debug_quoted(word).as_str());
    reply.append("\n");
    reply
}

/// Whether the answer to a power request says that it failed.
pub fn power_request_failed(reply: &str) -> (failed: bool)
    ensures
        failed == occurs_at(reply@, "err"@, 0),
{
    starts_with(reply, "err")
}

/// What a client that wants to see a console is told.
#[derive(Debug)]
pub enum Admission {
    /// It may watch.
    Watch,
    /// It may use the console until the claim is released.
    Use { claim: ConsoleClaim },
    /// It may not, and is told why.
    Refuse { text: String },
}

/// What a client is told that names no board.
pub open spec fn no_such_board(board_id: Seq<char>) -> Seq<char> {
    "err board not found or serial error: "@ + board_id + "\n"@
}

/// What a client is told whose console is not to be had.
pub open spec fn no_console(error: ErrorView) -> Seq<char> {
    "err "@ + error.line() + "\n"@
}

/// Decides whether a client may watch a board's console, or use it with `interactive`.
pub fn open_session(registry: &mut BoardRegistry, board_id: &str, interactive: bool) -> (admission:
    Admission)
    requires
        old(registry).wf(),
    ensures
        final(registry).wf(),
        if !old(registry)@.dom().contains(board_id@) {
            &&& final(registry)@ == old(registry)@
            &&& admission matches Admission::Refuse { text } && text@ == no_such_board(board_id@)
        } else if !interactive {
            &&& final(registry)@ == old(registry)@
            &&& admission is Watch
        } else if old(registry)@[board_id@].console_active {
            &&& final(registry)@ == old(registry)@
            &&& admission matches Admission::Refuse { text } && text@ == no_console(
                console_taken(board_id@),
            )
        } else {
            &&& final(registry)@ == old(registry)@.insert(
                board_id@,
                (Board { console_active: true, ..old(registry)@[board_id@] }),
            )
            &&& admission matches Admission::Use { claim } && claim@ == board_id@
        },
{
    if registry.board(board_id).is_err() {
        let mut text = "err board not found or serial error: ".to_owned();
        text.append(board_id);
        text.append("\n");
        return Admission::Refuse { text };
    }
    if !interactive {
        return Admission::Watch;
    }
    match registry.claim_console(board_id) {
        Ok(claim) => Admission::Use { claim },
        Err(error) => {
            let mut text = "err ".to_owned();
            text.append(error.describe().as_str());
            text.append("\n");
            Admission::Refuse { text }
        },
    }
}

/// What becomes of console input.
#[derive(Debug)]
pub enum Forwarding {
    /// It may be written, after which the lease ends.
    Write { guard: LeaseGuard },
    /// An operation holds the board; the notice is shown instead.
    Ignore { notice: Vec<u8> },
    /// There is no such board.
    Drop,
}

/// The notice that input was ignored.
pub open spec fn busy_notice() -> Seq<char> {
    "\r\n\x1b[33m[rpictl: lease held by MCP operation, input ignored]\x1b[0m\r\n"@
}

/// The notice that input could not be written.
pub open spec fn write_notice() -> Seq<char> {
    "\r\n\x1b[31m[rpictl: failed to write to serial console]\x1b[0m\r\n"@
}

/// The bytes of the notice that input could not be written.
pub fn write_failure_notice() -> (notice: Vec<u8>)
    ensures
        notice@ == encode_utf8(write_notice()),
{
    text_bytes("\r\n\x1b[31m[rpictl: failed to write to serial console]\x1b[0m\r\n")
}

fn text_bytes(text: &str) -> (bytes: Vec<u8>)
    ensures
        bytes@ == encode_utf8(text@),
{
    copy_bytes(text.as_bytes())
}

/// The owner of a lease under which console input is written.
pub open spec fn is_input_owner(owner: OwnerView) -> bool {
    &&& owner.operation == "interactive_console_write"@
    &&& exists|id: Seq<char>| #[trigger]
        is_operation_id(id) && owner.operation_id == "console-"@ + id
}

/// Asks for the lease under which console input is written. It is not waited for.
pub fn forward_console_input(registry: &mut BoardRegistry, board_id: &str) -> (forwarding:
    Forwarding)
    requires
        old(registry).wf(),
    ensures
        final(registry).wf(),
        if !old(registry)@.dom().contains(board_id@) {
            &&& final(registry)@ == old(registry)@
            &&& forwarding is Drop
        } else {
            &&& final(registry)@ == old(registry)@.insert(
                board_id@,
                (Board { lease: final(registry)@[board_id@].lease, ..old(registry)@[board_id@] }),
            )
            &&& match old(registry)@[board_id@].lease@ {
                Some(holder) => {
                    &&& final(registry)@[board_id@].lease@ == Some(holder)
                    &&& forwarding matches Forwarding::Ignore { notice } && notice@ == encode_utf8(
                        busy_notice(),
                    )
                },
                None => {
                    &&& forwarding matches Forwarding::Write { guard } && is_input_owner(guard@)
                        && final(registry)@[board_id@].lease@ == Some(guard@)
                },
            }
        },
{
    if registry.board(board_id).is_err() {
        return Forwarding::Drop;
    }
    let id = fresh_operation_id();
    let mut operation_id = "console-".to_owned();
    operation_id.append(id.as_str());
    let owner = LeaseOwner { operation_id, operation: "interactive_console_write".to_owned() };
    assert(is_input_owner(owner@)) by {
        assert(is_operation_id(id@) && owner@.operation_id == "console-"@ + id@);
    }
    match registry.acquire(board_id, owner, 0) {
        Ok(LeaseOutcome::Granted(guard)) => Forwarding::Write { guard },
        _ => Forwarding::Ignore {
            notice: text_bytes(
                "\r\n\x1b[33m[rpictl: lease held by MCP operation, input ignored]\x1b[0m\r\n",
            ),
        },
    }
}

/// The server's end of a console session: the command line that is open, if one is, and whether
/// the board's output is held back from the client.
#[derive(Debug)]
pub struct ConsoleSession {
    command: Option<Vec<u8>>,
    muted: bool,
}

/// What a session is.
pub struct SessionView {
    pub command: Option<Seq<u8>>,
    pub muted: bool,
}

impl View for ConsoleSession {
    type V = SessionView;

    closed spec fn view(&self) -> SessionView {
        SessionView {
            command: match self.command {
                Some(bytes) => Some(bytes@),
                None => None,
            },
            muted: self.muted,
        }
    }
}

/// What a byte from the client asks for.
#[derive(Debug, PartialEq, Eq)]
pub enum SessionAction {
    /// Nothing yet.
    Nothing,
    /// To be written to the board.
    Forward { byte: u8 },
    /// To execute the command and answer it.
    Execute { command: String },
    /// To answer that the command is not valid UTF-8.
    Reject,
}

/// What an action is.
pub enum SessionActionView {
    Nothing,
    Forward { byte: u8 },
    Execute { command: Seq<char> },
    Reject,
}

impl View for SessionAction {
    type V = SessionActionView;

    open spec fn view(&self) -> SessionActionView {
        match self {
            SessionAction::Nothing => SessionActionView::Nothing,
            SessionAction::Forward { byte } => SessionActionView::Forward { byte: *byte },
            SessionAction::Execute { command } => SessionActionView::Execute { command: command@ },
            SessionAction::Reject => SessionActionView::Reject,
        }
    }
}

/// The byte ends a line.
pub open spec fn ends_line(byte: u8) -> bool {
    byte == 10 || byte == 13
}

/// The command that holds the board's output back.
pub open spec fn mute_command() -> Seq<char> {
    "__rpictl_on"@
}

/// The command that lets the board's output through.
pub open spec fn unmute_command() -> Seq<char> {
    "__rpictl_off"@
}

impl SessionView {
    /// The session as it begins.
    pub open spec fn start() -> SessionView {
        SessionView { command: None, muted: false }
    }

    /// The session after a byte from the client.
    pub open spec fn after(self, byte: u8) -> SessionView {
        match self.command {
            Some(bytes) => if ends_line(byte) {
                SessionView {
                    command: None,
                    muted: if !valid_utf8(bytes) {
                        self.muted
                    } else if trim(decode_utf8(bytes)) == mute_command() {
                        true
                    } else if trim(decode_utf8(bytes)) == unmute_command() {
                        false
                    } else {
                        self.muted
                    },
                }
            } else {
                SessionView { command: Some(bytes.push(byte)), ..self }
            },
            None => if byte == 0 {
                SessionView { command: Some(Seq::empty()), ..self }
            } else {
                self
            },
        }
    }

    /// What a byte from the client asks for.
    pub open spec fn action(self, byte: u8) -> SessionActionView {
        match self.command {
            Some(bytes) => if !ends_line(byte) {
                SessionActionView::Nothing
            } else if !valid_utf8(bytes) {
                SessionActionView::Reject
            } else if trim(decode_utf8(bytes)) == mute_command() || trim(decode_utf8(bytes))
                == unmute_command() {
                SessionActionView::Nothing
            } else {
                SessionActionView::Execute { command: trim(decode_utf8(bytes)) }
            },
            None => if byte == 0 {
                SessionActionView::Nothing
            } else {
                SessionActionView::Forward { byte }
            },
        }
    }

    /// The session after some bytes from the client.
    pub open spec fn after_all(self, bytes: Seq<u8>) -> SessionView
        decreases bytes.len(),
    {
        if bytes.len() == 0 {
            self
        } else {
            self.after_all(bytes.drop_last()).after(bytes.last())
        }
    }
}

impl ConsoleSession {
    /// A session as it begins.
    pub fn new() -> (session: Self)
        ensures
            session@ == SessionView::start(),
    {
        ConsoleSession { command: None, muted: false }
    }

    /// Whether the board's output is held back from the client.
    pub fn muted(&self) -> (muted: bool)
        ensures
            muted == self@.muted,
    {
        self.muted
    }

    /// Takes a byte from the client.
    pub fn feed(&mut self, byte: u8) -> (action: SessionAction)
        ensures
            final(self)@ == old(self)@.after(byte),
            action@ == old(self)@.action(byte),
    {
        if self.command.is_none() {
            if byte == 0 {
                let empty: Vec<u8> = Vec::new();
                assert(empty@ == Seq::<u8>::empty());
                self.command = Some(empty);
                return SessionAction::Nothing;
            }
            return SessionAction::Forward { byte };
        }
        let mut bytes = self.command.take().unwrap();
        if byte != 10 && byte != 13 {
            bytes.push(byte);
            self.command = Some(bytes);
            return SessionAction::Nothing;
        }
        match decode_strict(bytes) {
            Some(text) => {
                let command = trimmed(text.as_str());
                if same(command.as_str(), "__rpictl_on") {
                    self.muted = true;
                    SessionAction::Nothing
                } else if same(command.as_str(), "__rpictl_off") {
                    self.muted = false;
                    SessionAction::Nothing
                } else {
                    SessionAction::Execute { command }
                }
            },
            None => SessionAction::Reject,
        }
    }
}

/// A command of the console.
#[derive(Debug, Clone, Copy, PartialEq, Eq, Structural)]
pub enum ConsoleCommand {
    Change { change: PowerChange },
    Status,
    State,
    Help,
    Unknown,
}

/// The command that a list of words is.
pub open spec fn command_of(list: Seq<Seq<char>>) -> ConsoleCommand {
    if list == seq!["poweron"@] {
        ConsoleCommand::Change { change: PowerChange::On }
    } else if list == seq!["poweroff"@] {
        ConsoleCommand::Change { change: PowerChange::Off }
    } else if list == seq!["poweroff"@, "--force"@] || list == seq!["poweroff"@, "-f"@] {
        ConsoleCommand::Change { change: PowerChange::ForceOff }
    } else if list == seq!["powercycle"@] {
        ConsoleCommand::Change { change: PowerChange::Cycle }
    } else if list == seq!["powerstatus"@] || list == seq!["power"@] {
        ConsoleCommand::Status
    } else if list == seq!["state"@] {
        ConsoleCommand::State
    } else if list == seq!["help"@] {
        ConsoleCommand::Help
    } else {
        ConsoleCommand::Unknown
    }
}

fn is_word(list: &Vec<String>, word: &str) -> (result: bool)
    ensures
        result == (texts(list@) == seq![word@]),
{
    if list.len() == 1 && same(list[0].as_str(), word) {
        assert(texts(list@) == seq![word@]);
        true
    } else {
        proof {
            if texts(list@) == seq![word@] {
                assert(texts(list@).len() == 1);
                assert(texts(list@)[0] == list@[0]@);
            }
        }
        false
    }
}

fn is_pair(list: &Vec<String>, first: &str, second: &str) -> (result: bool)
    ensures
        result == (texts(list@) == seq![first@, second@]),
{
    if list.len() == 2 && same(list[0].as_str(), first) && same(list[1].as_str(), second) {
        assert(texts(list@) == seq![first@, second@]);
        true
    } else {
        proof {
            if texts(list@) == seq![first@, second@] {
                assert(texts(list@).len() == 2);
                assert(texts(list@)[0] == list@[0]@);
                assert(texts(list@)[1] == list@[1]@);
            }
        }
        false
    }
}

/// Reads a command of the console.
pub fn parse_console_command(text: &str) -> (command: ConsoleCommand)
    ensures
        command == command_of(words(text@)),
{
    let list = words_of(text);
    if is_word(&list, "poweron") {
        ConsoleCommand::Change { change: PowerChange::On }
    } else if is_word(&list, "poweroff") {
        ConsoleCommand::Change { change: PowerChange::Off }
    } else if is_pair(&list, "poweroff", "--force") || is_pair(&list, "poweroff", "-f") {
        ConsoleCommand::Change { change: PowerChange::ForceOff }
    } else if is_word(&list, "powercycle") {
        ConsoleCommand::Change { change: PowerChange::Cycle }
    } else if is_word(&list, "powerstatus") || is_word(&list, "power") {
        ConsoleCommand::Status
    } else if is_word(&list, "state") {
        ConsoleCommand::State
    } else if is_word(&list, "help") {
        ConsoleCommand::Help
    } else {
        ConsoleCommand::Unknown
    }
}

/// What the console tells when a change was made.
pub open spec fn console_change_made(change: PowerChange) -> Seq<char> {
    match change {
        PowerChange::On => "Power on succeeded"@,
        PowerChange::Off => "Graceful power off succeeded"@,
        PowerChange::ForceOff => "Forced power off succeeded"@,
        PowerChange::Cycle => "Power cycle succeeded"@,
    }
}

/// What the console tells when a change failed, up to the message.
pub open spec fn console_change_failed(change: PowerChange) -> Seq<char> {
    match change {
        PowerChange::On => "Power on failed: "@,
        PowerChange::Off => "Power off failed: "@,
        PowerChange::ForceOff => "Forced power off failed: "@,
        PowerChange::Cycle => "Power cycle failed: "@,
    }
}

/// What the console tells of a change of power.
pub fn console_change_reply(change: PowerChange, failure: Option<&Error>) -> (reply: String)
    ensures
        reply@ == match failure {
            None => console_change_made(change),
            Some(error) => console_change_failed(change) + error.message@,
        },
{
    match failure {
        None => {
            let text = match change {
                PowerChange::On => "Power on succeeded",
                PowerChange::Off => "Graceful power off succeeded",
                PowerChange::ForceOff => "Forced power off succeeded",
                PowerChange::Cycle => "Power cycle succeeded",
            };
            text.to_owned()
        },
        Some(error) => {
            let text = match change {
                PowerChange::On => "Power on failed: ",
                PowerChange::Off => "Power off failed: ",
                PowerChange::ForceOff => "Forced power off failed: ",
                PowerChange::Cycle => "Power cycle failed: ",
            };
            let mut reply = text.to_owned();
            reply.append(error.message.as_str());
            reply
        },
    }
}

/// What the console tells of the power state.
pub fn console_status_reply(outcome: &Result<PowerObservation, Error>) -> (reply: String)
    ensures
        reply@ == match *outcome {
            Ok(observation) => "Power state: "@ + status_text(observation@),
            Err(error) => "Failed to get power state: "@ + error.message@,
        },
{
    match outcome {
        Ok(observation) => {
            let mut reply = "Power state: ".to_owned();
            reply.append(write_status(observation).as_str());
            reply
        },
        Err(error) => {
            let mut reply = "Failed to get power state: ".to_owned();
            reply.append(error.message.as_str());
            reply
        },
    }
}

/// What the console tells of the board's state.
pub fn console_state_reply(outcome: &Result<BoardState, Error>) -> (reply: String)
    ensures
        reply@ == match *outcome {
            Ok(state) => "Observed board state: "@ + state.title(),
            Err(error) => "Failed to get board state: "@ + error.message@,
        },
{
    match outcome {
        Ok(state) => {
            let mut reply = "Observed board state: ".to_owned();
            reply.append(state.state_title().as_str());
            reply
        },
        Err(error) => {
            let mut reply = "Failed to get board state: ".to_owned();
            reply.append(error.message.as_str());
            reply
        },
    }
}

/// What the console tells of a command that it does not know.
pub open spec fn unknown_command(text: Seq<char>) -> Seq<char> {
    "Unknown command: "@ + text + ". Type help for available commands."@
}

/// What the console tells of a command that it does not know.
pub fn unknown_command_reply(text: &str) -> (reply: String)
    ensures
        reply@ == unknown_command(text@),
{
    let mut reply = "Unknown command: ".to_owned();
    reply.append(text);
    reply.append(". Type help for available commands.");
    reply
}

/// The commands of the console.
pub open spec fn help_text() -> Seq<char> {
    "  poweron          - Power on board\r\n  poweroff         - Gracefully power off board\r\n  poweroff --force - Immediately cut relay power\r\n  powercycle       - Power cycle board\r\n  powerstatus      - Check power relay status\r\n  state            - Check current inferred board state\r\n  help             - Show this help\r\n  exit             - Detach from console\r\n  Ctrl+]           - Return to UART mode"@
}

/// The commands of the console.
pub fn console_help() -> (help: &'static str)
    ensures
        help@ == help_text(),
{
    "  poweron          - Power on board\r\n  poweroff         - Gracefully power off board\r\n  poweroff --force - Immediately cut relay power\r\n  powercycle       - Power cycle board\r\n  powerstatus      - Check power relay status\r\n  state            - Check current inferred board state\r\n  help             - Show this help\r\n  exit             - Detach from console\r\n  Ctrl+]           - Return to UART mode"
}

/// An answer as the server sends it.
pub open spec fn framed(response: Seq<char>) -> Seq<u8> {
    seq![0u8, 82u8] + encode_utf8(response) + seq![0u8]
}

/// Frames an answer.
pub fn frame_response(response: &str) -> (frame: Vec<u8>)
    ensures
        frame@ == framed(response@),
{
    let mut frame: Vec<u8> = Vec::new();
    frame.push(0);
    frame.push(82);
    let mut bytes = text_bytes(response);
    frame.append(&mut bytes);
    frame.push(0);
    assert(frame@ == framed(response@));
    frame
}

/// The answer to a command that is not valid UTF-8.
pub fn bad_encoding_reply() -> (reply: String)
    ensures
        reply@ == "Invalid console command encoding"@,
{
    "Invalid console command encoding".to_owned()
}

/// What a request that was read comes to.
#[derive(Debug)]
pub enum Work {
    /// The answer is known.
    Reply { text: String },
    /// The operation is to be run, and its outcome answered.
    Operate { change: PowerChange, operation: Operation },
    /// The dialogue is to be held, and its outcome answered.
    Query { task: PowerTask },
}

/// `work` is the answer `text`.
pub open spec fn answers_with(work: Work, text: Seq<char>) -> bool {
    work matches Work::Reply { text: shown } && shown@ == text
}

/// What a console command comes to.
pub open spec fn handles(
    work: Work,
    boards: Map<Seq<char>, Board>,
    board_id: Seq<char>,
    text: Seq<char>,
) -> bool {
    let board = boards[board_id];
    let missing = board_not_found(board_id).message;
    match command_of(words(text)) {
        ConsoleCommand::Change { change } => if boards.dom().contains(board_id) {
            work matches Work::Operate { change: asked, operation } && asked == change
                && is_change(Ok(operation), boards, board_id, change)
        } else {
            answers_with(work, console_change_failed(change) + missing)
        },
        ConsoleCommand::Status => if !boards.dom().contains(board_id) {
            answers_with(work, "Failed to get power state: "@ + missing)
        } else {
            match task_for(board.profile.power, PowerGoal::Query) {
                Ok(view) => work matches Work::Query { task } && task@ == view,
                Err(error) => answers_with(work, "Failed to get power state: "@ + error.message),
            }
        },
        ConsoleCommand::State => answers_with(
            work,
            if boards.dom().contains(board_id) {
                "Observed board state: "@ + board.current_state().title()
            } else {
                "Failed to get board state: "@ + missing
            },
        ),
        ConsoleCommand::Help => answers_with(work, help_text()),
        ConsoleCommand::Unknown => answers_with(work, unknown_command(text)),
    }
}

/// Takes a console command for a board.
pub fn handle_console_command(registry: &BoardRegistry, board_id: &str, text: &str) -> (work: Work)
    requires
        registry.wf(),
    ensures
        handles(work, registry@, board_id@, text@),
{
    match parse_console_command(text) {
        ConsoleCommand::Change { change } => match change_power(registry, board_id, change) {
            Ok(operation) => Work::Operate { change, operation },
            Err(error) => Work::Reply { text: console_change_reply(change, Some(&error)) },
        },
        ConsoleCommand::Status => match registry.power_state(board_id) {
            Ok(task) => Work::Query { task },
            Err(error) => Work::Reply { text: console_status_reply(&Err(error)) },
        },
        ConsoleCommand::State => Work::Reply {
            text: console_state_reply(&registry.observed_state(board_id)),
        },
        ConsoleCommand::Help => Work::Reply { text: console_help().to_owned() },
        ConsoleCommand::Unknown => Work::Reply { text: unknown_command_reply(text) },
    }
}

/// What a power request comes to.
pub open spec fn serves(
    work: Work,
    boards: Map<Seq<char>, Board>,
    board_id: Seq<char>,
    word: Seq<char>,
) -> bool {
    let missing = board_not_found(board_id).message;
    match power_action(word) {
        Some(PowerAction::Change { change }) => if boards.dom().contains(board_id) {
            work matches Work::Operate { change: asked, operation } && asked == change
                && is_change(Ok(operation), boards, board_id, change)
        } else {
            answers_with(work, change_failed(change) + missing + "\n"@)
        },
        Some(PowerAction::Status) => if !boards.dom().contains(board_id) {
            answers_with(work, "err power status failed: "@ + missing + "\n"@)
        } else {
            match task_for(boards[board_id].profile.power, PowerGoal::Query) {
                Ok(view) => work matches Work::Query { task } && task@ == view,
                Err(error) => answers_with(
                    work,
                    "err power status failed: "@ + error.message + "\n"@,
                ),
            }
        },
        None => answers_with(work, "err unknown power action: "@ + quoted(word) + "\n"@),
    }
}

/// Takes a power request for a board.
pub fn handle_power_request(registry: &BoardRegistry, board_id: &str, word: &str) -> (work: Work)
    requires
        registry.wf(),
    ensures
        serves(work, registry@, board_id@, word@),
{
    match parse_power_action(word) {
        Some(PowerAction::Change { change }) => match change_power(registry, board_id, change) {
            Ok(operation) => Work::Operate { change, operation },
            Err(error) => Work::Reply { text: change_reply(change, Some(&error)) },
        },
        Some(PowerAction::Status) => match registry.power_state(board_id) {
            Ok(task) => Work::Query { task },
            Err(error) => Work::Reply { text: status_reply(&Err(error)) },
        },
        None => Work::Reply { text: unknown_action_reply(word) },
    }
}

/// The client's reading of what the server sends: board output, in which answers stand framed.
#[derive(Debug)]
pub struct ResponseDecoder {
    response: Vec<u8>,
    in_response: bool,
    pending_nul: bool,
}

/// How far a reading has come.
pub enum DecoderView {
    /// In the board's output.
    Plain,
    /// After a NUL byte in the board's output.
    Pending,
    /// In an answer of which so much has come.
    Response { bytes: Seq<u8> },
}

impl View for ResponseDecoder {
    type V = DecoderView;

    closed spec fn view(&self) -> DecoderView {
        if self.in_response {
            DecoderView::Response { bytes: self.response@ }
        } else if self.pending_nul {
            DecoderView::Pending
        } else {
            DecoderView::Plain
        }
    }
}

/// How a prompt for commands is shown.
pub open spec fn prompt_text() -> Seq<char> {
    "\x1b[36mrpictl> \x1b[0m"@
}

/// How an answer is shown, with a prompt after it where one is due.
pub open spec fn response_text(response: Seq<char>, prompting: bool) -> Seq<char> {
    let shown = "\x1b[36m[rpictl] "@ + response + "\x1b[0m\r\n"@;
    if prompting {
        shown + prompt_text()
    } else {
        shown
    }
}

impl DecoderView {
    /// The reading after a byte.
    pub open spec fn after(self, byte: u8) -> DecoderView {
        match self {
            DecoderView::Response { bytes } => if byte == 0 {
                DecoderView::Plain
            } else {
                DecoderView::Response { bytes: bytes.push(byte) }
            },
            DecoderView::Pending => if byte == 82 {
                DecoderView::Response { bytes: Seq::empty() }
            } else {
                DecoderView::Plain
            },
            DecoderView::Plain => if byte == 0 {
                DecoderView::Pending
            } else {
                DecoderView::Plain
            },
        }
    }

    /// What is shown for a byte.
    pub open spec fn shows(self, byte: u8, prompting: bool) -> Seq<u8> {
        match self {
            DecoderView::Response { bytes } => if byte == 0 {
                encode_utf8(response_text(decoded(bytes), prompting))
            } else {
                Seq::empty()
            },
            DecoderView::Pending => if byte == 82 {
                Seq::empty()
            } else {
                seq![0u8, byte]
            },
            DecoderView::Plain => if byte == 0 {
                Seq::empty()
            } else {
                seq![byte]
            },
        }
    }

    /// The reading after some bytes.
    pub open spec fn after_all(self, bytes: Seq<u8>) -> DecoderView
        decreases bytes.len(),
    {
        if bytes.len() == 0 {
            self
        } else {
            self.after_all(bytes.drop_last()).after(bytes.last())
        }
    }

    /// What is shown for some bytes.
    pub open spec fn shows_all(self, bytes: Seq<u8>, prompting: bool) -> Seq<u8>
        decreases bytes.len(),
    {
        if bytes.len() == 0 {
            Seq::empty()
        } else {
            self.shows_all(bytes.drop_last(), prompting) + self.after_all(bytes.drop_last()).shows(
                bytes.last(),
                prompting,
            )
        }
    }
}

/// How an answer is shown, with a prompt after it where one is due.
pub fn show_response(response: &str, prompting: bool) -> (shown: Vec<u8>)
    ensures
        shown@ == encode_utf8(response_text(response@, prompting)),
{
    let mut text = "\x1b[36m[rpictl] ".to_owned();
    text.append(response);
    text.append("\x1b[0m\r\n");
    if prompting {
        text.append("\x1b[36mrpictl> \x1b[0m");
    }
    text_bytes(text.as_str())
}

impl ResponseDecoder {
    /// A reading that begins.
    pub fn new() -> (decoder: Self)
        ensures
            decoder@ is Plain,
    {
        ResponseDecoder { response: Vec::new(), in_response: false, pending_nul: false }
    }

    /// Takes a byte from the server and returns what is to be shown.
    pub fn feed(&mut self, byte: u8, prompting: bool) -> (shown: Vec<u8>)
        ensures
            final(self)@ == old(self)@.after(byte),
            shown@ == old(self)@.shows(byte, prompting),
    {
        let mut shown: Vec<u8> = Vec::new();
        assert(shown@ == Seq::<u8>::empty());
        if self.in_response {
            if byte == 0 {
                let text = decode_lossy(self.response.as_slice());
                shown = show_response(text.as_str(), prompting);
                self.response = Vec::new();
                self.in_response = false;
                self.pending_nul = false;
            } else {
                self.response.push(byte);
            }
        } else if self.pending_nul {
            self.pending_nul = false;
            if byte == 82 {
                self.response = Vec::new();
                self.in_response = true;
                assert(self.response@ == Seq::<u8>::empty());
            } else {
                shown.push(0);
                shown.push(byte);
                assert(shown@ == seq![0u8, byte]);
            }
        } else if byte == 0 {
            self.pending_nul = true;
        } else {
            shown.push(byte);
            assert(shown@ == seq![byte]);
        }
        shown
    }
}

/// The client's end of a console session: whether keys go to the command line, and what stands
/// there.
#[derive(Debug)]
pub struct ConsoleClient {
    commanding: bool,
    command: Vec<char>,
}

/// What a client's end is.
pub struct ClientView {
    pub commanding: bool,
    pub command: Seq<char>,
}

impl View for ConsoleClient {
    type V = ClientView;

    closed spec fn view(&self) -> ClientView {
        ClientView { commanding: self.commanding, command: self.command@ }
    }
}

/// What a key asks for.
#[derive(Debug, PartialEq, Eq)]
pub struct KeyEffect {
    pub send: Vec<u8>,
    pub show: Vec<u8>,
    pub leave: bool,
}

/// What an effect is.
pub struct EffectView {
    pub send: Seq<u8>,
    pub show: Seq<u8>,
    pub leave: bool,
}

impl View for KeyEffect {
    type V = EffectView;

    open spec fn view(&self) -> EffectView {
        EffectView { send: self.send@, show: self.show@, leave: self.leave }
    }
}

/// A command that is for the server to execute.
pub open spec fn remote_command(text: Seq<char>) -> bool {
    ||| text == "poweron"@
    ||| text == "poweroff"@
    ||| text == "poweroff --force"@
    ||| text == "poweroff -f"@
    ||| text == "powercycle"@
    ||| text == "powerstatus"@
    ||| text == "power"@
    ||| text == "state"@
}

/// Whether a command is for the server to execute.
pub fn is_remote_console_command(command: &str) -> (result: bool)
    ensures
        result == remote_command(command@),
{
    same(command, "poweron") || same(command, "poweroff") || same(command, "poweroff --force")
        || same(command, "poweroff -f") || same(command, "powercycle") || same(
        command,
        "powerstatus",
    ) || same(command, "power") || same(command, "state")
}

/// A command line as the client sends it.
pub open spec fn command_frame(text: Seq<char>) -> Seq<u8> {
    encode_utf8("\0"@ + text + "\n"@)
}

/// What the end of a command line asks for.
pub open spec fn entered(text: Seq<char>) -> EffectView {
    if text == "exit"@ || text == "quit"@ {
        EffectView { send: Seq::empty(), show: encode_utf8("\r\n"@), leave: true }
    } else if text == "help"@ {
        EffectView {
            send: Seq::empty(),
            show: encode_utf8("\r\n"@ + help_text() + "\r\n"@ + prompt_text()),
            leave: false,
        }
    } else if text.len() == 0 {
        EffectView {
            send: Seq::empty(),
            show: encode_utf8("\r\n"@ + prompt_text()),
            leave: false,
        }
    } else if remote_command(text) {
        EffectView { send: command_frame(text), show: encode_utf8("\r\n"@), leave: false }
    } else {
        EffectView {
            send: Seq::empty(),
            show: encode_utf8("\r\n"@ + unknown_command(text) + "\r\n"@ + prompt_text()),
            leave: false,
        }
    }
}

impl ClientView {
    /// A client's end after a key: Ctrl+] changes between the board and the command line.
    pub open spec fn after(self, key: u8) -> ClientView {
        if key == 0x1d {
            ClientView { commanding: !self.commanding, command: Seq::empty() }
        } else if !self.commanding {
            self
        } else if ends_line(key) {
            ClientView { command: Seq::empty(), ..self }
        } else if key == 0x08 || key == 0x7f {
            if self.command.len() > 0 {
                ClientView { command: self.command.drop_last(), ..self }
            } else {
                self
            }
        } else if key >= 0x20 {
            ClientView { command: self.command.push(key as char), ..self }
        } else {
            self
        }
    }

    /// What a key asks for.
    pub open spec fn effect(self, key: u8) -> EffectView {
        if key == 0x1d {
            if self.commanding {
                EffectView {
                    send: command_frame(unmute_command()),
                    show: encode_utf8("\r\n\x1b[90m[UART console]\x1b[0m\r\n"@),
                    leave: false,
                }
            } else {
                EffectView {
                    send: command_frame(mute_command()),
                    show: encode_utf8("\r\n"@ + prompt_text()),
                    leave: false,
                }
            }
        } else if !self.commanding {
            EffectView { send: seq![key], show: Seq::empty(), leave: false }
        } else if ends_line(key) {
            entered(trim(self.command))
        } else if key == 0x08 || key == 0x7f {
            EffectView {
                send: Seq::empty(),
                show: if self.command.len() > 0 {
                    seq![0x08u8, 0x20u8, 0x08u8]
                } else {
                    Seq::empty()
                },
                leave: false,
            }
        } else if key >= 0x20 {
            EffectView { send: Seq::empty(), show: seq![key], leave: false }
        } else {
            EffectView { send: Seq::empty(), show: Seq::empty(), leave: false }
        }
    }
}

fn effect(send: Vec<u8>, show: Vec<u8>) -> (effect: KeyEffect)
    ensures
        effect@ == (EffectView { send: send@, show: show@, leave: false }),
{
    KeyEffect { send, show, leave: false }
}

fn nothing() -> (bytes: Vec<u8>)
    ensures
        bytes@ == Seq::<u8>::empty(),
{
    let bytes: Vec<u8> = Vec::new();
    assert(bytes@ == Seq::<u8>::empty());
    bytes
}

fn frame_command(text: &str) -> (frame: Vec<u8>)
    ensures
        frame@ == command_frame(text@),
{
    let mut line = "\0".to_owned();
    line.append(text);
    line.append("\n");
    text_bytes(line.as_str())
}

fn enter_command(text: &str) -> (effect: KeyEffect)
    ensures
        effect@ == entered(text@),
{
    let mut show = "\r\n".to_owned();
    if same(text, "exit") || same(text, "quit") {
        return KeyEffect { send: nothing(), show: text_bytes(show.as_str()), leave: true };
    }
    if same(text, "help") {
        show.append(console_help());
        show.append("\r\n");
        show.append("\x1b[36mrpictl> \x1b[0m");
    } else if text.is_empty() {
        show.append("\x1b[36mrpictl> \x1b[0m");
    } else if is_remote_console_command(text) {
        return self::effect(frame_command(text), text_bytes(show.as_str()));
    } else {
        show.append(unknown_command_reply(text).as_str());
        show.append("\r\n");
        show.append("\x1b[36mrpictl> \x1b[0m");
    }
    self::effect(nothing(), text_bytes(show.as_str()))
}

impl ConsoleClient {
    /// A client's end as it begins: keys go to the board.
    pub fn new() -> (client: Self)
        ensures
            client@ == (ClientView { commanding: false, command: Seq::empty() }),
    {
        let client = ConsoleClient { commanding: false, command: Vec::new() };
        assert(client.command@ == Seq::<char>::empty());
        client
    }

    /// Whether keys go to the command line.
    pub fn commanding(&self) -> (commanding: bool)
        ensures
            commanding == self@.commanding,
    {
        self.commanding
    }

    /// Takes a key.
    pub fn press(&mut self, key: u8) -> (result: KeyEffect)
        ensures
            final(self)@ == old(self)@.after(key),
            result@ == old(self)@.effect(key),
    {
        if key == 0x1d {
            self.command = Vec::new();
            assert(self.command@ == Seq::<char>::empty());
            self.commanding = !self.commanding;
            if self.commanding {
                let mut show = "\r\n".to_owned();
                show.append("\x1b[36mrpictl> \x1b[0m");
                return effect(frame_command("__rpictl_on"), text_bytes(show.as_str()));
            }
            return effect(
                frame_command("__rpictl_off"),
                text_bytes("\r\n\x1b[90m[UART console]\x1b[0m\r\n"),
            );
        }
        if !self.commanding {
            let mut send: Vec<u8> = Vec::new();
            send.push(key);
            assert(send@ == seq![key]);
            return effect(send, nothing());
        }
        if key == 10 || key == 13 {
            let text = string_of(&self.command);
            let command = trimmed(text.as_str());
            self.command = Vec::new();
            assert(self.command@ == Seq::<char>::empty());
            return enter_command(command.as_str());
        }
        let mut show: Vec<u8> = nothing();
        if key == 0x08 || key == 0x7f {
            if self.command.len() > 0 {
                let _ = self.command.pop();
                show.push(0x08);
                show.push(0x20);
                show.push(0x08);
                assert(show@ == seq![0x08u8, 0x20u8, 0x08u8]);
            }
        } else if key >= 0x20 {
            self.command.push(key as char);
            show.push(key);
            assert(show@ == seq![key]);
        }
        effect(nothing(), show)
    }
}

} // verus!
