//! The requests that tools make and what each comes to.
//!
//! A request that acts on a board is answered with an operation to be run; the errors are the
//! texts that the caller is shown.

use std::time::SystemTime;

use vstd::prelude::*;
use vstd::utf8::{encode_utf8, valid_utf8};

use crate::effects::{
    boots_linux, cycles, logs_in, reboots, runs_in_linux, runs_in_uboot, tells_probed_state,
    tells_state, turns_off, turns_on, turns_on_to_linux, turns_on_to_uboot,
};
use crate::error::Error;
use crate::observation::{deadline, look_verdict, WINDOW};
use crate::operations::{
    console_steps, forced_power_off_steps, graceful_power_off_steps, is_operation_id, line,
    linux_command_steps, power_cycle_steps, power_on_linux_steps, power_on_steps,
    power_on_uboot_steps, probe_steps, reboot_into_uboot_steps, reset_into_uboot_steps, text_line,
    uboot_command_steps, unconfirmed,
};
use crate::plan_laws::{
    console_operations_send_what_is_given, graceful_power_off_syncs_and_shuts_down,
    linux_commands_show_their_status, power_on_linux_boots_and_logs_in,
    power_on_uboot_interrupts_the_boot, probes_send_one_carriage_return, switches_do_just_that,
    uboot_commands_follow_a_prompt,
};
use crate::policy::{not_one_line, one_line};
use crate::power::{task_for, PowerGoal, PowerObservation, PowerTask};
use crate::procedure::{planned, text_in, Operation, StepView};
use crate::registry::{board_not_found, Board, BoardRegistry};
use crate::rule_laws::commands_of_one_line;
use crate::serial::{cursor_ends_the_contents, flatten, floor, snapshot_is_a_window};
use crate::state::{observed, BoardState, EvidenceView, StateDetector, StateEvidence};
use crate::state_laws::evidence_is_the_pattern;
use crate::text::{
    copy_bytes, debug_quoted, decode_lossy, decode_strict, decoded, precedes, quoted, same,
    texts, trim, trimmed,
};

verus! {

/// What a list of boards says of each.
#[derive(Debug)]
pub struct BoardSummary {
    pub board_id: String,
    pub display_name: Option<String>,
    pub serial_device: String,
    pub power_backend: String,
    pub available: bool,
    pub lease_owner_operation_id: Option<String>,
}

/// A request that names a board.
#[derive(Debug)]
pub struct BoardRequest {
    pub board_id: String,
}

/// A request for a board's state.
#[derive(Debug)]
pub struct BoardStateRequest {
    pub board_id: String,
    pub observe_duration_ms: Option<u64>,
    pub active_probe: Option<bool>,
}

/// A board's state. The confidence is in percent.
#[derive(Debug)]
pub struct BoardStateResult {
    pub board_id: String,
    pub state: String,
    pub confidence_percent: u8,
    pub timestamp_ms: u64,
    pub console_generation: u64,
    pub evidence: String,
    pub active_probe: bool,
}

/// A board's power state.
#[derive(Debug)]
pub struct PowerStateResult {
    pub board_id: String,
    pub state: String,
    pub backend: String,
    pub configured_identity: String,
    pub identity_verified: bool,
    pub detail: String,
}

/// A request for serial output.
#[derive(Debug)]
pub struct CaptureSerialRequest {
    pub board_id: String,
    pub max_bytes: Option<usize>,
    pub cursor: Option<u64>,
}

/// Serial output.
#[derive(Debug)]
pub struct SerialCaptureResult {
    pub board_id: String,
    pub text: String,
    pub start_cursor: u64,
    pub next_cursor: u64,
    pub console_generation: u64,
    pub truncated: bool,
    pub invalid_utf8: bool,
}

/// A request to turn a board on.
#[derive(Debug)]
pub struct PowerOnRequest {
    pub board_id: String,
    pub wait_for: Option<String>,
}

/// A request to turn on a board that is off, and to stop it in U-Boot.
#[derive(Debug)]
pub struct PowerOnUbootRequest {
    pub board_id: String,
    pub timeout_ms: Option<u64>,
}

/// A request to turn on a board that is off, and to wait for Linux.
#[derive(Debug)]
pub struct PowerOnLinuxRequest {
    pub board_id: String,
    pub timeout_ms: Option<u64>,
    pub login: Option<bool>,
}

/// A request to turn a board off.
#[derive(Debug)]
pub struct PowerOffRequest {
    pub board_id: String,
    pub mode: String,
    pub reason: String,
    pub confirmation: bool,
}

/// A request to turn a board off and on again.
#[derive(Debug)]
pub struct PowerCycleRequest {
    pub board_id: String,
    pub mode: String,
    pub reason: String,
    pub wait_for: Option<String>,
    pub confirmation: bool,
}

/// A request to wait for states.
#[derive(Debug)]
pub struct WaitStateRequest {
    pub board_id: String,
    pub states: Vec<String>,
    pub timeout_ms: u64,
}

/// A request to bring a board into U-Boot.
#[derive(Debug)]
pub struct EnterUbootRequest {
    pub board_id: String,
    pub restart: String,
}

/// A request to run a command.
#[derive(Debug)]
pub struct CommandRequest {
    pub board_id: String,
    pub command: String,
    pub timeout_ms: u64,
    pub expected_patterns: Option<Vec<String>>,
    pub allow_reboot: Option<bool>,
}

/// A request to boot Linux from U-Boot.
#[derive(Debug)]
pub struct BootLinuxRequest {
    pub board_id: String,
    pub login: Option<bool>,
    pub timeout_ms: Option<u64>,
}

/// A request to log in to Linux.
#[derive(Debug)]
pub struct LinuxLoginRequest {
    pub board_id: String,
    pub account: Option<String>,
    pub timeout_ms: Option<u64>,
}

/// A request to reboot Linux.
#[derive(Debug)]
pub struct RebootLinuxRequest {
    pub board_id: String,
    pub wait_for: Option<String>,
    pub timeout_ms: Option<u64>,
    pub confirmation: bool,
}

/// What a request for a board's state comes to.
#[derive(Debug)]
pub enum StateAnswer {
    /// The state, from what the console has shown.
    Known { result: BoardStateResult },
    /// An operation that makes the console show more, after which the state is to be read.
    Probe { operation: Operation },
}

/// What a summary says.
pub struct SummaryView {
    pub board_id: Seq<char>,
    pub display_name: Option<Seq<char>>,
    pub serial_device: Seq<char>,
    pub power_backend: Seq<char>,
    pub available: bool,
    pub lease_owner_operation_id: Option<Seq<char>>,
}

impl View for BoardSummary {
    type V = SummaryView;

    open spec fn view(&self) -> SummaryView {
        SummaryView {
            board_id: self.board_id@,
            display_name: text_in(self.display_name),
            serial_device: self.serial_device@,
            power_backend: self.power_backend@,
            available: self.available,
            lease_owner_operation_id: text_in(self.lease_owner_operation_id),
        }
    }
}

/// The summary of a board: it is available where nobody holds its lease.
pub open spec fn summary(board: Board) -> SummaryView {
    SummaryView {
        board_id: board.profile.board_id@,
        display_name: text_in(board.profile.display_name),
        serial_device: board.profile.serial.device@,
        power_backend: board.profile.power.backend@,
        available: board.lease@ is None,
        lease_owner_operation_id: match board.lease@ {
            Some(owner) => Some(owner.operation_id),
            None => None,
        },
    }
}

/// What a state result says.
pub struct StateResultView {
    pub board_id: Seq<char>,
    pub state: Seq<char>,
    pub confidence_percent: int,
    pub timestamp_ms: int,
    pub console_generation: int,
    pub evidence: Seq<char>,
    pub active_probe: bool,
}

impl View for BoardStateResult {
    type V = StateResultView;

    open spec fn view(&self) -> StateResultView {
        StateResultView {
            board_id: self.board_id@,
            state: self.state@,
            confidence_percent: self.confidence_percent as int,
            timestamp_ms: self.timestamp_ms as int,
            console_generation: self.console_generation as int,
            evidence: self.evidence@,
            active_probe: self.active_probe,
        }
    }
}

/// The state result that an evidence gives.
pub open spec fn state_result(
    board_id: Seq<char>,
    evidence: EvidenceView,
    timestamp_ms: int,
    active_probe: bool,
) -> StateResultView {
    StateResultView {
        board_id,
        state: evidence.state.name(),
        confidence_percent: evidence.confidence_percent,
        timestamp_ms,
        console_generation: evidence.generation,
        evidence: decoded(evidence.evidence),
        active_probe,
    }
}

/// What a power state result says.
pub struct PowerResultView {
    pub board_id: Seq<char>,
    pub state: Seq<char>,
    pub backend: Seq<char>,
    pub configured_identity: Seq<char>,
    pub identity_verified: bool,
    pub detail: Seq<char>,
}

impl View for PowerStateResult {
    type V = PowerResultView;

    open spec fn view(&self) -> PowerResultView {
        PowerResultView {
            board_id: self.board_id@,
            state: self.state@,
            backend: self.backend@,
            configured_identity: self.configured_identity@,
            identity_verified: self.identity_verified,
            detail: self.detail@,
        }
    }
}

/// What a capture says.
pub struct CaptureView {
    pub board_id: Seq<char>,
    pub text: Seq<char>,
    pub start_cursor: int,
    pub next_cursor: int,
    pub console_generation: int,
    pub truncated: bool,
    pub invalid_utf8: bool,
}

impl View for SerialCaptureResult {
    type V = CaptureView;

    open spec fn view(&self) -> CaptureView {
        CaptureView {
            board_id: self.board_id@,
            text: self.text@,
            start_cursor: self.start_cursor as int,
            next_cursor: self.next_cursor as int,
            console_generation: self.console_generation as int,
            truncated: self.truncated,
            invalid_utf8: self.invalid_utf8,
        }
    }
}

/// How many bytes a capture returns at most.
pub open spec fn capture_limit(max_bytes: Option<usize>) -> int {
    match max_bytes {
        Some(n) => if n < 1 {
            1
        } else if n > 1_048_576 {
            1_048_576
        } else {
            n as int
        },
        None => 65_536,
    }
}

/// Where a capture starts: at the cursor asked for, or so far back that the limit allows all.
pub open spec fn capture_start(board: Board, max_bytes: Option<usize>, cursor: Option<u64>) -> int {
    match cursor {
        Some(at) => at as int,
        None => floor(board.serial@.next_cursor - capture_limit(max_bytes)),
    }
}

/// The capture of a board's serial output.
pub open spec fn captured(board: Board, max_bytes: Option<usize>, cursor: Option<u64>) -> CaptureView {
    let start = capture_start(board, max_bytes, cursor);
    let snapshot = board.serial@.snapshot_from(start, capture_limit(max_bytes));
    let bytes = flatten(snapshot.chunks);
    CaptureView {
        board_id: board.profile.board_id@,
        text: decoded(bytes),
        start_cursor: start,
        next_cursor: snapshot.next_cursor,
        console_generation: board.serial@.generation,
        truncated: snapshot.truncated,
        invalid_utf8: !valid_utf8(bytes),
    }
}

/// The text shown for a board that does not exist.
pub open spec fn unknown_board(board_id: Seq<char>) -> Seq<char> {
    board_not_found(board_id).line()
}

/// `result` is an operation on the board, ready to be run, or the text that says that there is no
/// such board.
pub open spec fn is_answer(
    result: Result<Operation, String>,
    boards: Map<Seq<char>, Board>,
    board_id: Seq<char>,
    name: Seq<char>,
    expected: Option<Seq<char>>,
    policy: Option<Seq<char>>,
    steps: Seq<StepView>,
) -> bool {
    if boards.dom().contains(board_id) {
        &&& result matches Ok(operation)
        &&& operation.wf()
        &&& is_operation_id(operation@.operation_id)
        &&& operation@ == planned(
            operation@.operation_id,
            board_id,
            name,
            expected,
            policy,
            steps,
        )
    } else {
        result matches Err(text) && text@ == unknown_board(board_id)
    }
}

/// `result` is the text.
pub open spec fn refused<T>(result: Result<T, String>, text: Seq<char>) -> bool {
    result matches Err(shown) && shown@ == text
}

fn shown(result: Result<Operation, Error>) -> (shown: Result<Operation, String>)
    ensures
        match result {
            Ok(operation) => shown == Ok::<Operation, String>(operation),
            Err(error) => refused(shown, error@.line()),
        },
{
    match result {
        Ok(operation) => Ok(operation),
        Err(error) => Err(error.describe()),
    }
}

/// The state that a request calls by the name.
pub open spec fn state_named(name: Seq<char>) -> Option<BoardState> {
    if name == "uboot"@ || name == "uboot_prompt"@ {
        Some(BoardState::UbootPrompt)
    } else if name == "uboot_countdown"@ {
        Some(BoardState::UbootCountdown)
    } else if name == "linux_booting"@ {
        Some(BoardState::LinuxBooting)
    } else if name == "linux_login"@ {
        Some(BoardState::LinuxLogin)
    } else if name == "linux_shell"@ {
        Some(BoardState::LinuxShell)
    } else if name == "shutdown_in_progress"@ {
        Some(BoardState::ShutdownInProgress)
    } else {
        None
    }
}

/// The text shown for a name that no state has.
pub open spec fn unknown_state(name: Seq<char>) -> Seq<char> {
    "unknown state "@ + quoted(name)
}

/// The states that requests call by the names, or the text for the first name that none has.
pub open spec fn states_named(names: Seq<Seq<char>>) -> Result<Seq<BoardState>, Seq<char>>
    decreases names.len(),
{
    if names.len() == 0 {
        Ok(Seq::empty())
    } else {
        match states_named(names.drop_last()) {
            Ok(states) => match state_named(names.last()) {
                Some(state) => Ok(states.push(state)),
                None => Err(unknown_state(names.last())),
            },
            Err(text) => Err(text),
        }
    }
}

/// `result` says what `view` says.
pub open spec fn names_states(
    result: Result<Vec<BoardState>, String>,
    view: Result<Seq<BoardState>, Seq<char>>,
) -> bool {
    match view {
        Ok(states) => result matches Ok(list) && list@ == states,
        Err(text) => refused(result, text),
    }
}

/// The states that a request names.
pub fn parse_states(values: &[String]) -> (result: Result<Vec<BoardState>, String>)
    ensures
        names_states(result, states_named(texts(values@))),
{
    let ghost names = texts(values@);
    let mut states: Vec<BoardState> = Vec::new();
    let mut i: usize = 0;
    assert(names.take(0) == Seq::<Seq<char>>::empty());
    while i < values.len()
        invariant
            i <= values@.len(),
            names == texts(values@),
            states_named(names.take(i as int)) == Ok::<Seq<BoardState>, Seq<char>>(states@),
        decreases values@.len() - i,
    {
        proof {
            assert(names.take(i + 1).drop_last() == names.take(i as int));
            assert(names.take(i + 1).last() == values@[i as int]@);
        }
        match parse_state(values[i].as_str()) {
            Some(state) => {
                states.push(state);
            },
            None => {
                let mut text = "unknown state ".to_owned();
                text.append(debug_quoted(values[i].as_str()).as_str());
                proof {
                    unknown_name_decides(names, i + 1, text@);
                    assert(names.take(names.len() as int) == names);
                }
                return Err(text);
            },
        }
        i += 1;
    }
    assert(names.take(names.len() as int) == names);
    Ok(states)
}

proof fn unknown_name_decides(names: Seq<Seq<char>>, n: int, text: Seq<char>)
    requires
        0 <= n <= names.len(),
        states_named(names.take(n)) == Err::<Seq<BoardState>, Seq<char>>(text),
    ensures
        states_named(names.take(names.len() as int)) == Err::<Seq<BoardState>, Seq<char>>(text),
    decreases names.len() - n,
{
    if n < names.len() {
        assert(names.take(n + 1).drop_last() == names.take(n));
        unknown_name_decides(names, n + 1, text);
    }
}

fn parse_state(name: &str) -> (state: Option<BoardState>)
    ensures
        state == state_named(name@),
{
    if same(name, "uboot") || same(name, "uboot_prompt") {
        Some(BoardState::UbootPrompt)
    } else if same(name, "uboot_countdown") {
        Some(BoardState::UbootCountdown)
    } else if same(name, "linux_booting") {
        Some(BoardState::LinuxBooting)
    } else if same(name, "linux_login") {
        Some(BoardState::LinuxLogin)
    } else if same(name, "linux_shell") {
        Some(BoardState::LinuxShell)
    } else if same(name, "shutdown_in_progress") {
        Some(BoardState::ShutdownInProgress)
    } else {
        None
    }
}

/// A summary of every board, in the order of their ids.
pub fn list_boards(registry: &BoardRegistry) -> (list: Vec<BoardSummary>)
    requires
        registry.wf(),
    ensures
        forall|i: int, k: int|
            #![trigger list@[i], list@[k]]
            0 <= i < k < list@.len() ==> precedes(list@[i].board_id@, list@[k].board_id@),
        forall|i: int|
            0 <= i < list@.len() ==> registry@.dom().contains((#[trigger] list@[i]).board_id@)
                && list@[i]@ == summary(registry@[list@[i].board_id@]),
        forall|id: Seq<char>| #[trigger]
            registry@.dom().contains(id) ==> exists|i: int|
                0 <= i < list@.len() && (#[trigger] list@[i]).board_id@ == id,
{
    let boards = registry.list();
    let mut list: Vec<BoardSummary> = Vec::new();
    let mut i: usize = 0;
    while i < boards.len()
        invariant
            i <= boards@.len(),
            list@.len() == i,
            forall|k: int| 0 <= k < i ==> (#[trigger] list@[k])@ == summary(*boards@[k]),
        decreases boards@.len() - i,
    {
        list.push(summarize(boards[i]));
        i += 1;
    }
    proof {
        assert forall|i: int| 0 <= i < list@.len() implies registry@.dom().contains(
            (#[trigger] list@[i]).board_id@,
        ) && list@[i]@ == summary(registry@[list@[i].board_id@]) by {
            assert(list@[i]@.board_id == boards@[i].profile.board_id@);
        }
        assert forall|i: int, k: int| #![trigger list@[i], list@[k]] 0 <= i < k < list@.len() implies precedes(
            list@[i].board_id@,
            list@[k].board_id@,
        ) by {
            assert(list@[i]@.board_id == boards@[i].profile.board_id@);
            assert(list@[k]@.board_id == boards@[k].profile.board_id@);
        }
        assert forall|id: Seq<char>| #[trigger] registry@.dom().contains(id) implies exists|i: int|
            0 <= i < list@.len() && (#[trigger] list@[i]).board_id@ == id by {
            let k = choose|k: int|
                0 <= k < boards@.len() && (#[trigger] boards@[k]).profile.board_id@ == id;
            assert(list@[k]@.board_id == boards@[k].profile.board_id@);
        }
    }
    list
}

fn summarize(board: &Board) -> (view: BoardSummary)
    ensures
        view@ == summary(*board),
{
    let owner = board.lease.owner();
    let available = owner.is_none();
    let holder = match owner {
        Some(owner) => Some(owner.operation_id),
        None => None,
    };
    let display_name = match &board.profile.display_name {
        Some(name) => Some(name.clone()),
        None => None,
    };
    BoardSummary {
        board_id: board.profile.board_id.clone(),
        display_name,
        serial_device: board.profile.serial.device.clone(),
        power_backend: board.profile.power.backend.clone(),
        available,
        lease_owner_operation_id: holder,
    }
}

fn state_answer(
    board_id: &str,
    evidence: &StateEvidence,
    timestamp_ms: u64,
    active_probe: bool,
) -> (result: BoardStateResult)
    ensures
        result@ == state_result(board_id@, evidence@, timestamp_ms as int, active_probe),
{
    BoardStateResult {
        board_id: board_id.to_owned(),
        state: evidence.state.state_name(),
        confidence_percent: evidence.confidence_percent,
        timestamp_ms,
        console_generation: evidence.generation,
        evidence: decode_lossy(evidence.evidence.as_slice()),
        active_probe,
    }
}

/// How long a probe watches the console, in milliseconds.
pub open spec fn probe_duration(request: Option<u64>) -> int {
    match request {
        Some(ms) => if ms > 5_000 {
            5_000
        } else {
            ms as int
        },
        None => 500,
    }
}

/// A board's state. Without a probe it is read from what the console has shown in its current
/// generation, and nothing is written; with one, an operation sends a carriage return first.
pub fn get_board_state(
    registry: &BoardRegistry,
    request: &BoardStateRequest,
    timestamp: SystemTime,
    timestamp_ms: u64,
) -> (result: Result<StateAnswer, String>)
    requires
        registry.wf(),
    ensures
        ({
            let id = request.board_id@;
            let board = registry@[id];
            if !registry@.dom().contains(id) {
                refused(result, unknown_board(id))
            } else if request.active_probe == Some(true) {
                result matches Ok(StateAnswer::Probe { operation }) && is_answer(
                    Ok(operation),
                    registry@,
                    id,
                    "get_board_state"@,
                    None,
                    None,
                    probe_steps(probe_duration(request.observe_duration_ms)),
                )
            } else {
                result matches Ok(StateAnswer::Known { result: known }) && known@ == state_result(
                    id,
                    observed(
                        board.profile.patterns,
                        board.current_output(),
                        timestamp,
                        board.serial@.generation,
                    ),
                    timestamp_ms as int,
                    false,
                )
            }
        }),
        tells_state(result, registry@, *request),
{
    proof {
        probes_send_one_carriage_return(probe_duration(request.observe_duration_ms));
        let board = registry@[request.board_id@];
        evidence_is_the_pattern(
            board.profile.patterns,
            board.current_output(),
            timestamp,
            board.serial@.generation,
        );
    }
    let board = match registry.board(request.board_id.as_str()) {
        Ok(board) => board,
        Err(error) => {
            return Err(error.describe());
        },
    };
    let probe = match request.active_probe {
        Some(wanted) => wanted,
        None => false,
    };
    if probe {
        let duration_ms: u64 = match request.observe_duration_ms {
            Some(ms) => if ms > 5_000 {
                5_000
            } else {
                ms
            },
            None => 500,
        };
        return match registry.probe(request.board_id.as_str(), duration_ms) {
            Ok(operation) => Ok(StateAnswer::Probe { operation }),
            Err(error) => Err(error.describe()),
        };
    }
    let generation: u64 = board.serial.generation();
    let bytes = board.serial.snapshot_generation(generation, WINDOW).bytes();
    let evidence = StateDetector::new(&board.profile.patterns).observe(
        bytes.as_slice(),
        timestamp,
        generation,
    );
    let answer = state_answer(request.board_id.as_str(), &evidence, timestamp_ms, false);
    Ok(StateAnswer::Known { result: answer })
}

/// A board's state after a probe: what the console has shown since the carriage return was sent.
pub fn probed_board_state(
    registry: &BoardRegistry,
    probe: &Operation,
    timestamp: SystemTime,
    timestamp_ms: u64,
) -> (result: Result<BoardStateResult, String>)
    requires
        registry.wf(),
    ensures
        ({
            let id = probe@.board_id;
            let board = registry@[id];
            if !registry@.dom().contains(id) {
                refused(result, unknown_board(id))
            } else {
                result matches Ok(known) && known@ == state_result(
                    id,
                    observed(
                        board.profile.patterns,
                        board.output_since(probe@.cursor),
                        timestamp,
                        board.serial@.generation,
                    ),
                    timestamp_ms as int,
                    true,
                )
            }
        }),
        tells_probed_state(result, registry@, *probe),
{
    proof {
        let board = registry@[probe@.board_id];
        evidence_is_the_pattern(
            board.profile.patterns,
            board.output_since(probe@.cursor),
            timestamp,
            board.serial@.generation,
        );
    }
    let board = match registry.board(probe.board_id()) {
        Ok(board) => board,
        Err(error) => {
            return Err(error.describe());
        },
    };
    let bytes = board.serial.snapshot_from(probe.cursor(), WINDOW).bytes();
    let evidence = StateDetector::new(&board.profile.patterns).observe(
        bytes.as_slice(),
        timestamp,
        board.serial.generation(),
    );
    Ok(state_answer(probe.board_id(), &evidence, timestamp_ms, true))
}

/// The dialogue that queries a board's power.
pub fn get_power_state(registry: &BoardRegistry, request: &BoardRequest) -> (result: Result<
    PowerTask,
    String,
>)
    requires
        registry.wf(),
    ensures
        ({
            let id = request.board_id@;
            if !registry@.dom().contains(id) {
                refused(result, unknown_board(id))
            } else {
                match task_for(registry@[id].profile.power, PowerGoal::Query) {
                    Ok(view) => result matches Ok(task) && task@ == view,
                    Err(error) => refused(result, error.line()),
                }
            }
        }),
{
    match registry.power_state(request.board_id.as_str()) {
        Ok(task) => Ok(task),
        Err(error) => Err(error.describe()),
    }
}

/// What is shown of a board's power once the query has ended.
pub fn power_state_result(
    registry: &BoardRegistry,
    request: &BoardRequest,
    outcome: Result<PowerObservation, Error>,
) -> (result: Result<PowerStateResult, String>)
    requires
        registry.wf(),
    ensures
        ({
            let id = request.board_id@;
            if !registry@.dom().contains(id) {
                refused(result, unknown_board(id))
            } else {
                match outcome {
                    Ok(observation) => result matches Ok(shown) && shown@ == (PowerResultView {
                        board_id: id,
                        state: observation.state@,
                        backend: registry@[id].profile.power.backend@,
                        configured_identity: registry@[id].profile.power.identity@,
                        identity_verified: observation.identity_verified,
                        detail: observation.raw@,
                    }),
                    Err(error) => refused(result, error@.line()),
                }
            }
        }),
{
    let board = match registry.board(request.board_id.as_str()) {
        Ok(board) => board,
        Err(error) => {
            return Err(error.describe());
        },
    };
    match outcome {
        Ok(observation) => Ok(
            PowerStateResult {
                board_id: request.board_id.clone(),
                state: observation.state,
                backend: board.profile.power.backend.clone(),
                configured_identity: board.profile.power.identity.clone(),
                identity_verified: observation.identity_verified,
                detail: observation.raw,
            },
        ),
        Err(error) => Err(error.describe()),
    }
}

/// Captures serial output, without a lease and without writing.
pub fn capture_serial(registry: &BoardRegistry, request: &CaptureSerialRequest) -> (result: Result<
    SerialCaptureResult,
    String,
>)
    requires
        registry.wf(),
    ensures
        if registry@.dom().contains(request.board_id@) {
            result matches Ok(capture) && capture@ == captured(
                registry@[request.board_id@],
                request.max_bytes,
                request.cursor,
            )
        } else {
            refused(result, unknown_board(request.board_id@))
        },
{
    let board = match registry.board(request.board_id.as_str()) {
        Ok(board) => board,
        Err(error) => {
            return Err(error.describe());
        },
    };
    let limit: usize = match request.max_bytes {
        Some(n) => if n < 1 {
            1
        } else if n > 1_048_576 {
            1_048_576
        } else {
            n
        },
        None => 65_536,
    };
    let end: u64 = board.serial.next_cursor();
    let start_cursor: u64 = match request.cursor {
        Some(at) => at,
        None => if end > limit as u64 {
            end - limit as u64
        } else {
            0
        },
    };
    let snapshot = board.serial.snapshot_from(start_cursor, limit);
    let bytes = snapshot.bytes();
    let text = decode_lossy(bytes.as_slice());
    let invalid_utf8 = decode_strict(bytes).is_none();
    Ok(
        SerialCaptureResult {
            board_id: request.board_id.clone(),
            text,
            start_cursor,
            next_cursor: snapshot.next_cursor,
            console_generation: board.serial.generation(),
            truncated: snapshot.truncated,
            invalid_utf8,
        },
    )
}

/// The operation that turns a board on.
pub fn power_on(registry: &BoardRegistry, request: &PowerOnRequest) -> (result: Result<
    Operation,
    String,
>)
    requires
        registry.wf(),
    ensures
        is_answer(
            result,
            registry@,
            request.board_id@,
            "power_on"@,
            None,
            None,
            power_on_steps(),
        ),
        turns_on(result, registry@, *request),
{
    proof {
        switches_do_just_that(registry@[request.board_id@].profile);
    }
    shown(registry.power_on(request.board_id.as_str()))
}

/// The states that a board is to show once it is on, if any.
pub fn power_on_wait(request: &PowerOnRequest) -> (result: Result<Option<Vec<BoardState>>, String>)
    ensures
        match request.wait_for {
            Some(name) => if name@ == "none"@ {
                result == Ok::<Option<Vec<BoardState>>, String>(None)
            } else {
                match state_named(name@) {
                    Some(state) => result matches Ok(Some(states)) && states@ == seq![state],
                    None => refused(result, unknown_state(name@)),
                }
            },
            None => result == Ok::<Option<Vec<BoardState>>, String>(None),
        },
{
    match &request.wait_for {
        Some(name) => {
            if same(name.as_str(), "none") {
                return Ok(None);
            }
            match parse_one(name) {
                Ok(states) => Ok(Some(states)),
                Err(text) => Err(text),
            }
        },
        None => Ok(None),
    }
}

/// What a look after power came on comes to: whether there is nothing more to wait for, or the
/// text of an error.
pub open spec fn settled(
    result: Result<bool, String>,
    boards: Map<Seq<char>, Board>,
    request: PowerOnRequest,
    state: BoardState,
    expired: bool,
) -> bool {
    match request.wait_for {
        None => result == Ok::<bool, String>(true),
        Some(name) => if name@ == "none"@ {
            result == Ok::<bool, String>(true)
        } else {
            match state_named(name@) {
                None => refused(result, unknown_state(name@)),
                Some(wanted) => match look_verdict(
                    boards,
                    request.board_id@,
                    state,
                    seq![wanted],
                    expired,
                    false,
                ) {
                    Ok(found) => result == Ok::<bool, String>(found is Some),
                    Err(error) => refused(result, error.line()),
                },
            }
        },
    }
}

/// One look of the wait after power came on, which began at `began_ms`: whether there is nothing
/// more to wait for. The wait is over at the board's operation timeout; until then it is to look
/// again after a rest.
pub fn power_on_settled(
    registry: &BoardRegistry,
    request: &PowerOnRequest,
    began_ms: u64,
    now_ms: u64,
) -> (result: Result<bool, String>)
    requires
        registry.wf(),
    ensures
        settled(
            result,
            registry@,
            *request,
            registry@[request.board_id@].current_state(),
            now_ms >= began_ms
                + registry@[request.board_id@].profile.timing.operation_timeout_ms,
        ),
{
    let states = match power_on_wait(request) {
        Ok(Some(states)) => states,
        Ok(None) => {
            return Ok(true);
        },
        Err(text) => {
            return Err(text);
        },
    };
    let board = match registry.board(request.board_id.as_str()) {
        Ok(board) => board,
        Err(error) => {
            return Err(error.describe());
        },
    };
    match registry.wait_for_states(
        request.board_id.as_str(),
        states.as_slice(),
        None,
        deadline(began_ms, board.profile.operation_timeout()),
        now_ms,
    ) {
        Ok(found) => Ok(found.is_some()),
        Err(error) => Err(error.describe()),
    }
}

fn parse_one(name: &String) -> (result: Result<Vec<BoardState>, String>)
    ensures
        match state_named(name@) {
            Some(state) => result matches Ok(states) && states@ == seq![state],
            None => refused(result, unknown_state(name@)),
        },
{
    let mut names: Vec<String> = Vec::new();
    names.push(name.clone());
    proof {
        let list = texts(names@);
        assert(list.last() == name@);
        assert(list.drop_last() == Seq::<Seq<char>>::empty());
        assert(states_named(list.drop_last()) == Ok::<Seq<BoardState>, Seq<char>>(Seq::empty()));
        assert(forall|state: BoardState| Seq::<BoardState>::empty().push(state) == seq![state]);
    }
    parse_states(names.as_slice())
}

/// The operation that turns on a board that is off, and stops it in U-Boot.
pub fn power_on_uboot(registry: &BoardRegistry, request: &PowerOnUbootRequest) -> (result: Result<
    Operation,
    String,
>)
    requires
        registry.wf(),
    ensures
        ({
            let profile = registry@[request.board_id@].profile;
            is_answer(
                result,
                registry@,
                request.board_id@,
                "power_on_uboot"@,
                Some("uboot_prompt"@),
                None,
                power_on_uboot_steps(
                    profile,
                    timeout_or(request.timeout_ms, profile.timing.operation_timeout_ms as int),
                ),
            )
        }),
        turns_on_to_uboot(result, registry@, *request),
{
    proof {
        let profile = registry@[request.board_id@].profile;
        power_on_uboot_interrupts_the_boot(
            profile,
            timeout_or(request.timeout_ms, profile.timing.operation_timeout_ms as int),
        );
    }
    let board = match registry.board(request.board_id.as_str()) {
        Ok(board) => board,
        Err(error) => {
            return Err(error.describe());
        },
    };
    let timeout_ms: u64 = match request.timeout_ms {
        Some(ms) => ms,
        None => board.profile.operation_timeout(),
    };
    shown(registry.power_on_uboot(request.board_id.as_str(), timeout_ms))
}

/// The timeout asked for, or the other where none is.
pub open spec fn timeout_or(timeout_ms: Option<u64>, other: int) -> int {
    match timeout_ms {
        Some(ms) => ms as int,
        None => other,
    }
}

/// The operation that turns on a board that is off, and waits for Linux.
pub fn power_on_linux(registry: &BoardRegistry, request: &PowerOnLinuxRequest) -> (result: Result<
    Operation,
    String,
>)
    requires
        registry.wf(),
    ensures
        ({
            let profile = registry@[request.board_id@].profile;
            let login = request.login == Some(true);
            is_answer(
                result,
                registry@,
                request.board_id@,
                "power_on_linux"@,
                Some(
                    if login {
                        "linux_shell"@
                    } else {
                        "linux_login"@
                    },
                ),
                None,
                power_on_linux_steps(
                    profile,
                    login,
                    timeout_or(request.timeout_ms, profile.timing.operation_timeout_ms as int),
                ),
            )
        }),
        turns_on_to_linux(result, registry@, *request),
{
    proof {
        let profile = registry@[request.board_id@].profile;
        power_on_linux_boots_and_logs_in(
            profile,
            request.login == Some(true),
            timeout_or(request.timeout_ms, profile.timing.operation_timeout_ms as int),
        );
    }
    let board = match registry.board(request.board_id.as_str()) {
        Ok(board) => board,
        Err(error) => {
            return Err(error.describe());
        },
    };
    let timeout_ms: u64 = match request.timeout_ms {
        Some(ms) => ms,
        None => board.profile.operation_timeout(),
    };
    let login = match request.login {
        Some(wanted) => wanted,
        None => false,
    };
    shown(registry.power_on_linux(request.board_id.as_str(), login, timeout_ms))
}

/// The operation that turns a board off.
pub fn power_off(registry: &BoardRegistry, request: &PowerOffRequest) -> (result: Result<
    Operation,
    String,
>)
    requires
        registry.wf(),
    ensures
        if trim(request.reason@).len() == 0 {
            refused(result, "reason is required"@)
        } else if request.mode@ == "graceful"@ {
            if request.confirmation {
                is_answer(
                    result,
                    registry@,
                    request.board_id@,
                    "power_off"@,
                    Some("powered_off"@),
                    None,
                    graceful_power_off_steps(registry@[request.board_id@].profile),
                )
            } else {
                refused(
                    result,
                    unconfirmed("graceful power-off requires confirmation=true"@).line(),
                )
            }
        } else if request.mode@ == "force"@ {
            if request.confirmation {
                is_answer(
                    result,
                    registry@,
                    request.board_id@,
                    "power_off"@,
                    Some("powered_off"@),
                    None,
                    forced_power_off_steps(),
                )
            } else {
                refused(result, unconfirmed("forced power-off requires confirmation=true"@).line())
            }
        } else {
            refused(result, "mode must be graceful or force"@)
        },
        turns_off(result, registry@, *request),
{
    proof {
        switches_do_just_that(registry@[request.board_id@].profile);
        graceful_power_off_syncs_and_shuts_down(registry@[request.board_id@].profile);
        reveal_strlit("graceful");
        reveal_strlit("force");
        assert("graceful"@.len() == 8);
        assert("force"@.len() == 5);
    }
    if trimmed(request.reason.as_str()).as_str().is_empty() {
        return Err("reason is required".to_owned());
    }
    if same(request.mode.as_str(), "graceful") {
        shown(registry.graceful_power_off(request.board_id.as_str(), request.confirmation))
    } else if same(request.mode.as_str(), "force") {
        shown(registry.forced_power_off(request.board_id.as_str(), request.confirmation))
    } else {
        Err("mode must be graceful or force".to_owned())
    }
}

/// The operation that turns a board off and on again.
pub fn power_cycle(registry: &BoardRegistry, request: &PowerCycleRequest) -> (result: Result<
    Operation,
    String,
>)
    requires
        registry.wf(),
    ensures
        if trim(request.reason@).len() == 0 {
            refused(result, "reason is required"@)
        } else if request.mode@ != "graceful"@ && request.mode@ != "force"@ {
            refused(result, "mode must be graceful or force"@)
        } else if request.confirmation {
            is_answer(
                result,
                registry@,
                request.board_id@,
                "power_cycle"@,
                None,
                None,
                power_cycle_steps(registry@[request.board_id@].profile),
            )
        } else {
            refused(result, unconfirmed("power cycle requires confirmation=true"@).line())
        },
        cycles(result, registry@, *request),
{
    proof {
        switches_do_just_that(registry@[request.board_id@].profile);
    }
    if trimmed(request.reason.as_str()).as_str().is_empty() {
        return Err("reason is required".to_owned());
    }
    if !same(request.mode.as_str(), "graceful") && !same(request.mode.as_str(), "force") {
        return Err("mode must be graceful or force".to_owned());
    }
    shown(registry.power_cycle(request.board_id.as_str(), request.confirmation))
}

/// The answer to a wait that ended with `state`.
pub open spec fn waited(board_id: Seq<char>, state: BoardState, timestamp_ms: int) -> StateResultView {
    StateResultView {
        board_id,
        state: state.name(),
        confidence_percent: 95,
        timestamp_ms,
        console_generation: 0,
        evidence: "matched current console generation"@,
        active_probe: false,
    }
}

/// What one look of a wait comes to: the answer once the console shows one of the states that the
/// request names, the text of an error, or nothing yet.
pub open spec fn wait_outcome(
    result: Result<Option<BoardStateResult>, String>,
    boards: Map<Seq<char>, Board>,
    request: WaitStateRequest,
    state: BoardState,
    expired: bool,
    timestamp_ms: int,
) -> bool {
    match states_named(texts(request.states@)) {
        Err(text) => refused(result, text),
        Ok(states) => match look_verdict(
            boards,
            request.board_id@,
            state,
            states,
            expired,
            false,
        ) {
            Ok(Some(found)) => result matches Ok(Some(answer)) && answer@ == waited(
                request.board_id@,
                found,
                timestamp_ms,
            ),
            Ok(None) => result == Ok::<Option<BoardStateResult>, String>(None),
            Err(error) => refused(result, error.line()),
        },
    }
}

/// One look of a wait that began at `began_ms`: the answer once the console's current generation
/// shows one of the states that the request names. The wait is over at the request's timeout;
/// until then it is to look again after a rest.
pub fn wait_for_state(
    registry: &BoardRegistry,
    request: &WaitStateRequest,
    began_ms: u64,
    now_ms: u64,
    timestamp_ms: u64,
) -> (result: Result<Option<BoardStateResult>, String>)
    requires
        registry.wf(),
    ensures
        wait_outcome(
            result,
            registry@,
            *request,
            registry@[request.board_id@].current_state(),
            now_ms >= began_ms + request.timeout_ms,
            timestamp_ms as int,
        ),
{
    let states = match parse_states(request.states.as_slice()) {
        Ok(states) => states,
        Err(text) => {
            return Err(text);
        },
    };
    match registry.wait_for_states(
        request.board_id.as_str(),
        states.as_slice(),
        None,
        deadline(began_ms, request.timeout_ms),
        now_ms,
    ) {
        Ok(Some(state)) => Ok(Some(wait_answer(request, state, timestamp_ms))),
        Ok(None) => Ok(None),
        Err(error) => Err(error.describe()),
    }
}

/// The answer to a wait that ended with `state`.
pub fn wait_answer(request: &WaitStateRequest, state: BoardState, timestamp_ms: u64) -> (result:
    BoardStateResult)
    ensures
        result@ == waited(request.board_id@, state, timestamp_ms as int),
{
    BoardStateResult {
        board_id: request.board_id.clone(),
        state: state.state_name(),
        confidence_percent: 95,
        timestamp_ms,
        console_generation: 0,
        evidence: "matched current console generation".to_owned(),
        active_probe: false,
    }
}

/// A word that says whether a board may be restarted to bring it into U-Boot.
pub open spec fn restart_word(word: Seq<char>) -> bool {
    word == "auto"@ || word == "always"@ || word == "never"@
}

/// What a request to bring a board into U-Boot comes to, where its console shows `state`.
pub open spec fn enters_uboot(
    result: Result<Operation, String>,
    boards: Map<Seq<char>, Board>,
    id: Seq<char>,
    restart: Seq<char>,
    state: BoardState,
) -> bool {
    let profile = boards[id].profile;
    let timeout_ms = profile.timing.operation_timeout_ms as int;
    let prompt = seq![BoardState::UbootPrompt];
    if !boards.dom().contains(id) {
        refused(result, unknown_board(id))
    } else if !restart_word(restart) {
        refused(result, "restart must be auto, always, or never"@)
    } else if state == BoardState::UbootPrompt && restart == "always"@ {
        is_answer(
            result,
            boards,
            id,
            "enter_uboot"@,
            None,
            None,
            reset_into_uboot_steps(profile, timeout_ms),
        )
    } else if state == BoardState::UbootPrompt {
        is_answer(
            result,
            boards,
            id,
            "enter_uboot"@,
            None,
            None,
            console_steps("enter_uboot"@, line(Seq::empty()), prompt, 2_000, false),
        )
    } else if state == BoardState::UbootCountdown {
        is_answer(
            result,
            boards,
            id,
            "enter_uboot"@,
            None,
            None,
            console_steps(
                "enter_uboot"@,
                encode_utf8(profile.uboot.interrupt@),
                prompt,
                10_000,
                false,
            ),
        )
    } else if restart == "never"@ {
        refused(result, "U-Boot is not active and restart=never"@)
    } else if state == BoardState::LinuxShell {
        is_answer(
            result,
            boards,
            id,
            "enter_uboot"@,
            None,
            None,
            reboot_into_uboot_steps(profile, timeout_ms),
        )
    } else {
        refused(
            result,
            "automatic restart requires a known Linux shell or U-Boot prompt"@,
        )
    }
}

/// The operation that brings a board into U-Boot: by a carriage return at its prompt, by the
/// interrupt at its countdown, and by a restart where that is wanted and can be commanded.
pub fn enter_uboot(registry: &BoardRegistry, request: &EnterUbootRequest) -> (result: Result<
    Operation,
    String,
>)
    requires
        registry.wf(),
    ensures
        enters_uboot(
            result,
            registry@,
            request.board_id@,
            request.restart@,
            registry@[request.board_id@].current_state(),
        ),
{
    let state = match registry.observed_state(request.board_id.as_str()) {
        Ok(state) => state,
        Err(error) => {
            return Err(error.describe());
        },
    };
    enter_uboot_from(registry, request, state)
}

/// The operation that brings a board into U-Boot whose console shows `state`.
pub fn enter_uboot_from(
    registry: &BoardRegistry,
    request: &EnterUbootRequest,
    state: BoardState,
) -> (result: Result<Operation, String>)
    requires
        registry.wf(),
    ensures
        enters_uboot(result, registry@, request.board_id@, request.restart@, state),
{
    let id = request.board_id.as_str();
    let board = match registry.board(id) {
        Ok(board) => board,
        Err(error) => {
            return Err(error.describe());
        },
    };
    let restart = request.restart.as_str();
    let always = same(restart, "always");
    let never = same(restart, "never");
    if !same(restart, "auto") && !always && !never {
        return Err("restart must be auto, always, or never".to_owned());
    }
    let timeout_ms: u64 = board.profile.operation_timeout();
    let mut prompt: Vec<BoardState> = Vec::new();
    prompt.push(BoardState::UbootPrompt);
    assert(prompt@ == seq![BoardState::UbootPrompt]);
    if state == BoardState::UbootPrompt {
        if always {
            return shown(registry.reset_into_uboot(id, timeout_ms));
        }
        let bytes = text_line("");
        proof {
            reveal_strlit("");
            assert(""@ == Seq::<char>::empty());
        }
        return shown(
            registry.simple_console_operation(
                id,
                "enter_uboot",
                bytes.as_slice(),
                prompt.as_slice(),
                2_000,
                false,
            ),
        );
    }
    if state == BoardState::UbootCountdown {
        let bytes = copy_bytes(board.profile.uboot.interrupt.as_str().as_bytes());
        return shown(
            registry.simple_console_operation(
                id,
                "enter_uboot",
                bytes.as_slice(),
                prompt.as_slice(),
                10_000,
                false,
            ),
        );
    }
    if never {
        return Err("U-Boot is not active and restart=never".to_owned());
    }
    if state == BoardState::LinuxShell {
        return shown(registry.reboot_into_uboot(id, timeout_ms));
    }
    Err("automatic restart requires a known Linux shell or U-Boot prompt".to_owned())
}

/// The operation that runs a U-Boot command.
pub fn run_uboot_command(registry: &BoardRegistry, request: &CommandRequest) -> (result: Result<
    Operation,
    String,
>)
    requires
        registry.wf(),
    ensures
        if registry@.dom().contains(request.board_id@) && !one_line(request.command@) {
            refused(result, not_one_line().line())
        } else {
            is_answer(
                result,
                registry@,
                request.board_id@,
                "run_uboot_command"@,
                None,
                Some("unrestricted"@),
                uboot_command_steps(request.command@, request.timeout_ms as int),
            )
        },
        runs_in_uboot(result, registry@, *request),
{
    proof {
        uboot_commands_follow_a_prompt(request.command@, request.timeout_ms as int);
        commands_of_one_line(request.command@);
    }
    shown(
        registry.console_command(
            request.board_id.as_str(),
            "run_uboot_command",
            request.command.as_str(),
            false,
            request.timeout_ms,
        ),
    )
}

/// The operation that runs a Linux command.
pub fn run_linux_command(registry: &BoardRegistry, request: &CommandRequest) -> (result: Result<
    Operation,
    String,
>)
    requires
        registry.wf(),
    ensures
        if registry@.dom().contains(request.board_id@) && !one_line(request.command@) {
            refused(result, not_one_line().line())
        } else {
            is_answer(
                result,
                registry@,
                request.board_id@,
                "run_linux_command"@,
                None,
                Some("unrestricted"@),
                linux_command_steps(
                    request.command@,
                    result->Ok_0@.operation_id,
                    request.timeout_ms as int,
                ),
            )
        },
        runs_in_linux(result, registry@, *request),
{
    let result = shown(
        registry.console_command(
            request.board_id.as_str(),
            "run_linux_command",
            request.command.as_str(),
            true,
            request.timeout_ms,
        ),
    );
    proof {
        commands_of_one_line(request.command@);
        if let Ok(operation) = &result {
            linux_commands_show_their_status(
                request.command@,
                operation@.operation_id,
                request.timeout_ms as int,
            );
        }
    }
    result
}

/// The states that show that Linux was booted.
pub open spec fn boot_states(login: bool) -> Seq<BoardState> {
    if login {
        seq![BoardState::LinuxLogin, BoardState::LinuxShell]
    } else {
        seq![BoardState::LinuxBooting, BoardState::LinuxLogin, BoardState::LinuxShell]
    }
}

/// The operation that boots Linux from U-Boot.
pub fn boot_linux(registry: &BoardRegistry, request: &BootLinuxRequest) -> (result: Result<
    Operation,
    String,
>)
    requires
        registry.wf(),
    ensures
        ({
            let profile = registry@[request.board_id@].profile;
            is_answer(
                result,
                registry@,
                request.board_id@,
                "boot_linux"@,
                None,
                None,
                console_steps(
                    "boot_linux"@,
                    line(profile.uboot.boot_command@),
                    boot_states(request.login == Some(true)),
                    timeout_or(request.timeout_ms, profile.timing.operation_timeout_ms as int),
                    false,
                ),
            )
        }),
        boots_linux(result, registry@, *request),
{
    proof {
        let profile = registry@[request.board_id@].profile;
        console_operations_send_what_is_given(
            "boot_linux"@,
            line(profile.uboot.boot_command@),
            boot_states(request.login == Some(true)),
            timeout_or(request.timeout_ms, profile.timing.operation_timeout_ms as int),
            false,
        );
    }
    let board = match registry.board(request.board_id.as_str()) {
        Ok(board) => board,
        Err(error) => {
            return Err(error.describe());
        },
    };
    let login = match request.login {
        Some(wanted) => wanted,
        None => false,
    };
    let mut states: Vec<BoardState> = Vec::new();
    if !login {
        states.push(BoardState::LinuxBooting);
    }
    states.push(BoardState::LinuxLogin);
    states.push(BoardState::LinuxShell);
    assert(states@ == boot_states(login));
    let timeout_ms: u64 = match request.timeout_ms {
        Some(ms) => ms,
        None => board.profile.operation_timeout(),
    };
    let bytes = text_line(board.profile.uboot.boot_command.as_str());
    shown(
        registry.simple_console_operation(
            request.board_id.as_str(),
            "boot_linux",
            bytes.as_slice(),
            states.as_slice(),
            timeout_ms,
            false,
        ),
    )
}

/// The operation that logs in to Linux with the configured account.
pub fn linux_login(registry: &BoardRegistry, request: &LinuxLoginRequest) -> (result: Result<
    Operation,
    String,
>)
    requires
        registry.wf(),
    ensures
        ({
            let id = request.board_id@;
            let profile = registry@[id].profile;
            if !registry@.dom().contains(id) {
                refused(result, unknown_board(id))
            } else {
                match profile.linux.account {
                    None => refused(result, "Linux account is not configured"@),
                    Some(configured) => if request.account matches Some(other) && other@
                        != configured@ {
                        refused(result, "requested account is not configured"@)
                    } else {
                        is_answer(
                            result,
                            registry@,
                            id,
                            "linux_login"@,
                            None,
                            None,
                            console_steps(
                                "linux_login"@,
                                line(configured@),
                                seq![BoardState::LinuxShell],
                                timeout_or(
                                    request.timeout_ms,
                                    profile.timing.operation_timeout_ms as int,
                                ),
                                false,
                            ),
                        )
                    },
                }
            }
        }),
        logs_in(result, registry@, *request),
{
    proof {
        let profile = registry@[request.board_id@].profile;
        if let Some(account) = profile.linux.account {
            console_operations_send_what_is_given(
                "linux_login"@,
                line(account@),
                seq![BoardState::LinuxShell],
                timeout_or(request.timeout_ms, profile.timing.operation_timeout_ms as int),
                false,
            );
        }
    }
    let board = match registry.board(request.board_id.as_str()) {
        Ok(board) => board,
        Err(error) => {
            return Err(error.describe());
        },
    };
    let configured = match &board.profile.linux.account {
        Some(account) => account.as_str(),
        None => {
            return Err("Linux account is not configured".to_owned());
        },
    };
    if let Some(other) = &request.account {
        if !same(other.as_str(), configured) {
            return Err("requested account is not configured".to_owned());
        }
    }
    let mut states: Vec<BoardState> = Vec::new();
    states.push(BoardState::LinuxShell);
    assert(states@ == seq![BoardState::LinuxShell]);
    let timeout_ms: u64 = match request.timeout_ms {
        Some(ms) => ms,
        None => board.profile.operation_timeout(),
    };
    let bytes = text_line(configured);
    shown(
        registry.simple_console_operation(
            request.board_id.as_str(),
            "linux_login",
            bytes.as_slice(),
            states.as_slice(),
            timeout_ms,
            false,
        ),
    )
}

/// A state that a reboot can be asked to wait for: one that shows without a login and without an
/// interrupt.
pub open spec fn reboot_state(state: BoardState) -> bool {
    state == BoardState::UbootCountdown || state == BoardState::LinuxBooting || state
        == BoardState::LinuxLogin
}

/// The operation that reboots Linux.
pub fn reboot_linux(registry: &BoardRegistry, request: &RebootLinuxRequest) -> (result: Result<
    Operation,
    String,
>)
    requires
        registry.wf(),
    ensures
        ({
            let id = request.board_id@;
            let profile = registry@[id].profile;
            let timeout_ms = timeout_or(
                request.timeout_ms,
                profile.timing.operation_timeout_ms as int,
            );
            if !request.confirmation {
                refused(result, "CONFIRMATION_REQUIRED: reboot requires confirmation=true"@)
            } else if !registry@.dom().contains(id) {
                refused(result, unknown_board(id))
            } else {
                match request.wait_for {
                    None => is_answer(
                        result,
                        registry@,
                        id,
                        "reboot_linux"@,
                        None,
                        None,
                        console_steps(
                            "reboot_linux"@,
                            line("reboot"@),
                            seq![
                                BoardState::UbootCountdown,
                                BoardState::LinuxBooting,
                                BoardState::LinuxLogin,
                            ],
                            timeout_ms,
                            true,
                        ),
                    ),
                    Some(name) => match state_named(name@) {
                        None => refused(result, unknown_state(name@)),
                        Some(state) => if reboot_state(state) {
                            is_answer(
                                result,
                                registry@,
                                id,
                                "reboot_linux"@,
                                None,
                                None,
                                console_steps(
                                    "reboot_linux"@,
                                    line("reboot"@),
                                    seq![state],
                                    timeout_ms,
                                    true,
                                ),
                            )
                        } else {
                            refused(
                                result,
                                "wait_for must be uboot_countdown, linux_booting, or linux_login"@,
                            )
                        },
                    },
                }
            }
        }),
        reboots(result, registry@, *request),
{
    proof {
        let profile = registry@[request.board_id@].profile;
        console_operations_send_what_is_given(
            "reboot_linux"@,
            line("reboot"@),
            match &request.wait_for {
                Some(name) => seq![state_named(name@)->0],
                None => seq![
                    BoardState::UbootCountdown,
                    BoardState::LinuxBooting,
                    BoardState::LinuxLogin,
                ],
            },
            timeout_or(request.timeout_ms, profile.timing.operation_timeout_ms as int),
            true,
        );
    }
    if !request.confirmation {
        return Err("CONFIRMATION_REQUIRED: reboot requires confirmation=true".to_owned());
    }
    let board = match registry.board(request.board_id.as_str()) {
        Ok(board) => board,
        Err(error) => {
            return Err(error.describe());
        },
    };
    let mut states: Vec<BoardState> = Vec::new();
    match &request.wait_for {
        Some(name) => {
            match parse_one(name) {
                Ok(named) => {
                    let state = named[0];
                    if state != BoardState::UbootCountdown && state != BoardState::LinuxBooting
                        && state != BoardState::LinuxLogin {
                        return Err(
                            "wait_for must be uboot_countdown, linux_booting, or linux_login".to_owned(),
                        );
                    }
                    states.push(state);
                    assert(states@ == seq![state]);
                },
                Err(text) => {
                    return Err(text);
                },
            }
        },
        None => {
            states.push(BoardState::UbootCountdown);
            states.push(BoardState::LinuxBooting);
            states.push(BoardState::LinuxLogin);
            assert(states@ == seq![
                BoardState::UbootCountdown,
                BoardState::LinuxBooting,
                BoardState::LinuxLogin,
            ]);
        },
    }
    let timeout_ms: u64 = match request.timeout_ms {
        Some(ms) => ms,
        None => board.profile.operation_timeout(),
    };
    let bytes = text_line("reboot");
    shown(
        registry.simple_console_operation(
            request.board_id.as_str(),
            "reboot_linux",
            bytes.as_slice(),
            states.as_slice(),
            timeout_ms,
            true,
        ),
    )
}

/// Every state that can be waited for is called in requests by the name that results show.
pub proof fn awaited_states_keep_their_names(state: BoardState)
    requires
        state == BoardState::UbootPrompt || state == BoardState::UbootCountdown || state
            == BoardState::LinuxBooting || state == BoardState::LinuxLogin || state
            == BoardState::LinuxShell || state == BoardState::ShutdownInProgress,
    ensures
        state_named(state.name()) == Some(state),
{
    reveal_strlit("uboot");
    reveal_strlit("uboot_prompt");
    reveal_strlit("uboot_countdown");
    reveal_strlit("linux_booting");
    reveal_strlit("linux_login");
    reveal_strlit("linux_shell");
    reveal_strlit("shutdown_in_progress");
    assert("uboot"@.len() == 5);
    assert("uboot_prompt"@.len() == 12);
    assert("uboot_countdown"@.len() == 15);
    assert("linux_booting"@.len() == 13);
    assert("linux_login"@.len() == 11);
    assert("linux_shell"@.len() == 11);
    assert("linux_login"@[6] == 'l');
    assert("linux_shell"@[6] == 's');
    assert("shutdown_in_progress"@.len() == 20);
}

/// A capture never returns more than was asked for, nor more than a mebibyte.
pub proof fn captures_are_bounded(board: Board, max_bytes: Option<usize>, cursor: Option<u64>)
    requires
        board.serial@.wf(),
    ensures
        ({
            let start = capture_start(board, max_bytes, cursor);
            let bytes = flatten(
                board.serial@.snapshot_from(start, capture_limit(max_bytes)).chunks,
            );
            &&& bytes.len() <= capture_limit(max_bytes)
            &&& 1 <= capture_limit(max_bytes) <= 1_048_576
            &&& max_bytes matches Some(n) ==> n >= 1 ==> capture_limit(max_bytes) <= n
        }),
{
    snapshot_is_a_window(
        board.serial@,
        capture_start(board, max_bytes, cursor),
        capture_limit(max_bytes),
    );
}

/// A capture without a cursor ends where the output ends.
pub proof fn recent_captures_reach_the_end(board: Board, max_bytes: Option<usize>)
    requires
        board.serial@.wf(),
    ensures
        captured(board, max_bytes, None).next_cursor == board.serial@.next_cursor,
{
    let start = capture_start(board, max_bytes, None);
    snapshot_is_a_window(board.serial@, start, capture_limit(max_bytes));
    cursor_ends_the_contents(board.serial@);
}

} // verus!
