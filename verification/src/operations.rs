//! The operations on boards: what each consists of, how it begins and what it returns.

use std::collections::VecDeque;

use vstd::prelude::*;
use vstd::utf8::encode_utf8;

use crate::config::BoardProfile;
use crate::error::{fault, Error, ErrorCode, ErrorView};
use crate::lease::{acquired, released, LeaseGuard, LeaseOutcome};
use crate::policy::{not_one_line, one_line, validate_one_line};
use crate::power::{task_for, PowerGoal, PowerTask};
use crate::procedure::{
    planned, step_views, text_in, ActivityView, Operation, OperationView, Step, StepView,
};
use crate::registry::{board_not_found, Board, BoardRegistry};
use crate::state::BoardState;
use crate::text::{
    contains, control, copy_bytes, debug_quoted, lower_hex, occurs_at, quoted, remove, texts,
    without,
};

verus! {

/// What an operation that succeeded reports.
#[derive(Debug)]
pub struct OperationResult {
    pub operation_id: String,
    pub board_id: String,
    pub operation: String,
    pub success: bool,
    pub started_ms: u64,
    pub finished_ms: u64,
    pub elapsed_ms: u64,
    pub expected_state: Option<String>,
    pub observed_state: String,
    pub output: String,
    pub actions: Vec<String>,
    pub policy_decision: Option<String>,
}

/// What a result says.
pub struct ResultView {
    pub operation_id: Seq<char>,
    pub board_id: Seq<char>,
    pub operation: Seq<char>,
    pub success: bool,
    pub started_ms: int,
    pub finished_ms: int,
    pub elapsed_ms: int,
    pub expected_state: Option<Seq<char>>,
    pub observed_state: Seq<char>,
    pub output: Seq<char>,
    pub actions: Seq<Seq<char>>,
    pub policy_decision: Option<Seq<char>>,
}

impl View for OperationResult {
    type V = ResultView;

    open spec fn view(&self) -> ResultView {
        ResultView {
            operation_id: self.operation_id@,
            board_id: self.board_id@,
            operation: self.operation@,
            success: self.success,
            started_ms: self.started_ms as int,
            finished_ms: self.finished_ms as int,
            elapsed_ms: self.elapsed_ms as int,
            expected_state: text_in(self.expected_state),
            observed_state: self.observed_state@,
            output: self.output@,
            actions: texts(self.actions@),
            policy_decision: text_in(self.policy_decision),
        }
    }
}

/// The report of an operation that is done, on a board that shows `state`.
pub open spec fn report(
    operation: OperationView,
    state: BoardState,
    started_ms: int,
    finished_ms: int,
) -> ResultView {
    ResultView {
        operation_id: operation.operation_id,
        board_id: operation.board_id,
        operation: operation.name,
        success: true,
        started_ms,
        finished_ms,
        elapsed_ms: if finished_ms > started_ms {
            finished_ms - started_ms
        } else {
            0
        },
        expected_state: operation.expected,
        observed_state: state.name(),
        output: operation.output,
        actions: operation.actions,
        policy_decision: operation.policy,
    }
}

/// `result` is what the operation comes to, on a board that shows `state`.
pub open spec fn reported(
    result: Result<OperationResult, Error>,
    operation: OperationView,
    state: BoardState,
    started_ms: int,
    finished_ms: int,
) -> bool {
    match operation.activity {
        ActivityView::Ended { failure: Some(error) } => result matches Err(e) && e@ == error,
        ActivityView::Ended { failure: None } => result matches Ok(r) && r@ == report(
            operation,
            state,
            started_ms,
            finished_ms,
        ),
        _ => true,
    }
}

/// A random identifier: hexadecimal digits in five groups, marked as random and with the
/// standard variant.
pub open spec fn is_operation_id(id: Seq<char>) -> bool {
    &&& id.len() == 36
    &&& forall|i: int|
        0 <= i < 36 ==> if i == 8 || i == 13 || i == 18 || i == 23 {
            #[trigger] id[i] == '-'
        } else {
            lower_hex(id[i])
        }
    &&& id[14] == '4'
    &&& id[19] == '8' || id[19] == '9' || id[19] == 'a' || id[19] == 'b'
}

/// `uuid::Uuid::new_v4` and its `Display`: a random identifier in the hyphenated lower-case form.
/// That two of them differ is a matter of chance and is not stated. It panics where the system
/// has no source of randomness.
#[verifier::external_body]
pub(crate) fn fresh_operation_id() -> (id: String)
    ensures
        is_operation_id(id@),
{
    uuid::Uuid::new_v4().to_string()
}

/// The text and a carriage return.
pub open spec fn line(text: Seq<char>) -> Seq<u8> {
    encode_utf8(text + "\r"@)
}

/// The steps that stop U-Boot at its next countdown, given that a cursor is remembered.
pub open spec fn interrupt_steps(profile: BoardProfile, timeout_ms: int) -> Seq<StepView> {
    seq![
        StepView::Await {
            states: seq![BoardState::UbootCountdown],
            timeout_ms,
            fresh: true,
        },
        StepView::Cursor,
        StepView::Send { bytes: encode_utf8(profile.uboot.interrupt@) },
        StepView::Note { text: "interrupted the fresh U-Boot autoboot countdown"@ },
        StepView::Await {
            states: seq![BoardState::UbootPrompt],
            timeout_ms: 10_000,
            fresh: true,
        },
    ]
}

/// The error for a board that is to be powered on and is on already.
pub open spec fn already_on(phase: Seq<char>, message: Seq<char>) -> ErrorView {
    fault(ErrorCode::PowerStateUnverified, phase, message)
}

/// The steps that turn a board on that is off, and begin its console generation.
pub open spec fn from_off_steps(error: ErrorView) -> Seq<StepView> {
    seq![
        StepView::RequireOff { error },
        StepView::Power { on: true, restore: false },
        StepView::Mark,
        StepView::Cursor,
        StepView::Note { text: "verified relay on"@ },
    ]
}

/// The steps of `power_on`.
pub open spec fn power_on_steps() -> Seq<StepView> {
    seq![
        StepView::Power { on: true, restore: false },
        StepView::Mark,
        StepView::Note { text: "verified relay on"@ },
    ]
}

/// The steps of `power_on_uboot`.
pub open spec fn power_on_uboot_steps(profile: BoardProfile, timeout_ms: int) -> Seq<StepView> {
    from_off_steps(
        already_on(
            "power_on_uboot"@,
            "board is already powered on; use enter_uboot instead"@,
        ),
    ) + interrupt_steps(profile, timeout_ms)
}

/// The steps that log in from a login prompt.
pub open spec fn login_steps(profile: BoardProfile, timeout_ms: int) -> Seq<StepView> {
    match profile.linux.account {
        Some(account) => seq![
            StepView::StopIf { state: BoardState::LinuxShell },
            StepView::Cursor,
            StepView::Send { bytes: line(account@) },
            StepView::Note { text: "sent configured Linux account"@ },
            StepView::Await { states: seq![BoardState::LinuxShell], timeout_ms, fresh: true },
        ],
        None => seq![
            StepView::StopIf { state: BoardState::LinuxShell },
            StepView::Fail {
                error: fault(
                    ErrorCode::InvalidConfiguration,
                    "linux_login"@,
                    "Linux account is not configured"@,
                ),
            },
        ],
    }
}

/// The steps of `power_on_linux`.
pub open spec fn power_on_linux_steps(
    profile: BoardProfile,
    login: bool,
    timeout_ms: int,
) -> Seq<StepView> {
    let start = from_off_steps(
        already_on(
            "power_on_linux"@,
            "board is already powered on; use boot_linux or linux_login instead"@,
        ),
    ).push(
        StepView::Await {
            states: seq![BoardState::LinuxLogin, BoardState::LinuxShell],
            timeout_ms,
            fresh: true,
        },
    );
    if login {
        start + login_steps(profile, timeout_ms)
    } else {
        start
    }
}

/// The steps of a forced power-off.
pub open spec fn forced_power_off_steps() -> Seq<StepView> {
    seq![
        StepView::Power { on: false, restore: false },
        StepView::Note { text: "forced relay off"@ },
    ]
}

/// The steps of a graceful power-off.
pub open spec fn graceful_power_off_steps(profile: BoardProfile) -> Seq<StepView> {
    let require = StepView::Require {
        state: BoardState::LinuxShell,
        error: fault(
            ErrorCode::ShellNotSynchronized,
            "shutdown"@,
            "a verified Linux shell is required"@,
        ),
    };
    match profile.linux.shutdown_command {
        Some(shutdown) => seq![
            require,
            StepView::Send { bytes: line("sync"@) },
            StepView::Note { text: "sent sync"@ },
            StepView::Pause { ms: 1_000 },
            StepView::Send { bytes: line(shutdown@) },
            StepView::Note { text: "sent configured shutdown command"@ },
            StepView::Await {
                states: seq![BoardState::ShutdownInProgress],
                timeout_ms: profile.timing.operation_timeout_ms as int,
                fresh: false,
            },
            StepView::Power { on: false, restore: false },
            StepView::Note { text: "verified relay off after shutdown"@ },
        ],
        None => seq![
            require,
            StepView::Fail {
                error: fault(
                    ErrorCode::InvalidConfiguration,
                    "shutdown"@,
                    "shutdown_command is not configured"@,
                ),
            },
        ],
    }
}

/// The steps of `power_cycle`.
pub open spec fn power_cycle_steps(profile: BoardProfile) -> Seq<StepView> {
    seq![
        StepView::Power { on: false, restore: false },
        StepView::Note { text: "verified relay off"@ },
        StepView::Pause { ms: profile.timing.power_cycle_off_ms as int },
        StepView::Power { on: true, restore: true },
        StepView::Mark,
        StepView::Note { text: "verified relay restored on"@ },
    ]
}

/// The steps of an operation that writes to the console and waits for states to show.
pub open spec fn console_steps(
    name: Seq<char>,
    bytes: Seq<u8>,
    states: Seq<BoardState>,
    timeout_ms: int,
    new_generation: bool,
) -> Seq<StepView> {
    let steps = seq![
        StepView::Cursor,
        StepView::Send { bytes },
        StepView::Note { text: "sent configured console input for "@ + name },
        StepView::Await { states, timeout_ms, fresh: true },
    ];
    if new_generation {
        seq![StepView::Mark] + steps
    } else {
        steps
    }
}

/// The steps that restart a board by a command and stop it in U-Boot.
pub open spec fn restart_steps(
    profile: BoardProfile,
    command: Seq<char>,
    note: Seq<char>,
    timeout_ms: int,
) -> Seq<StepView> {
    seq![
        StepView::Mark,
        StepView::Cursor,
        StepView::Send { bytes: line(command) },
        StepView::Note { text: note },
    ] + interrupt_steps(profile, timeout_ms)
}

/// The steps of `reboot_into_uboot`.
pub open spec fn reboot_into_uboot_steps(profile: BoardProfile, timeout_ms: int) -> Seq<StepView> {
    restart_steps(profile, "reboot"@, "sent configured Linux reboot command"@, timeout_ms)
}

/// The steps of `reset_into_uboot`.
pub open spec fn reset_into_uboot_steps(profile: BoardProfile, timeout_ms: int) -> Seq<StepView> {
    restart_steps(profile, "reset"@, "sent configured U-Boot reset command"@, timeout_ms)
}

/// The text that marks the end of an operation's command.
pub open spec fn completion_marker(operation_id: Seq<char>) -> Seq<char> {
    "__RPICTL_"@ + without(operation_id, '-') + "__"@
}

/// The line that runs a Linux command and shows the marker with its exit status.
pub open spec fn marked_command(command: Seq<char>, marker: Seq<char>) -> Seq<char> {
    command + "; printf '\\n"@ + marker + ":%s\\n' \"$?\""@
}

/// The steps that run a Linux command.
pub open spec fn linux_command_steps(
    command: Seq<char>,
    operation_id: Seq<char>,
    timeout_ms: int,
) -> Seq<StepView> {
    let marker = completion_marker(operation_id);
    seq![
        StepView::Cursor,
        StepView::Send { bytes: line(marked_command(command, marker)) },
        StepView::Note { text: "sent console command "@ + quoted(command) },
        StepView::Await { states: seq![BoardState::LinuxShell], timeout_ms, fresh: true },
        StepView::Transcript { marker: Some(marker) },
    ]
}

/// The steps that run a U-Boot command, at a prompt that was made to show first.
pub open spec fn uboot_command_steps(command: Seq<char>, timeout_ms: int) -> Seq<StepView> {
    seq![
        StepView::Cursor,
        StepView::Send { bytes: line(Seq::empty()) },
        StepView::Await {
            states: seq![BoardState::UbootPrompt],
            timeout_ms: 2_000,
            fresh: true,
        },
        StepView::Note { text: "synchronized the U-Boot prompt"@ },
        StepView::Cursor,
        StepView::Send { bytes: line(command) },
        StepView::Note { text: "sent console command "@ + quoted(command) },
        StepView::Await { states: seq![BoardState::UbootPrompt], timeout_ms, fresh: true },
        StepView::Transcript { marker: None },
    ]
}

/// The steps of a probe.
pub open spec fn probe_steps(duration_ms: int) -> Seq<StepView> {
    seq![
        StepView::Cursor,
        StepView::Send { bytes: line(Seq::empty()) },
        StepView::Note { text: "sent one carriage return to probe the console"@ },
        StepView::Pause { ms: duration_ms },
    ]
}

/// One part of writing to a console.
#[derive(Debug, Clone, Copy, PartialEq, Eq, Structural)]
pub enum WritePart {
    /// Write the byte.
    Byte { value: u8 },
    /// Rest for so many milliseconds.
    Pause { ms: u64 },
    /// Flush what was written.
    Flush,
}

/// How bytes are written: one at a time, each followed by the pause where one is configured, and
/// flushed in the end.
pub open spec fn write_parts(bytes: Seq<u8>, pacing_ms: u64) -> Seq<WritePart>
    decreases bytes.len(),
{
    if bytes.len() == 0 {
        seq![WritePart::Flush]
    } else {
        paced(bytes.first(), pacing_ms) + write_parts(bytes.drop_first(), pacing_ms)
    }
}

/// How one byte is written.
pub open spec fn paced(value: u8, pacing_ms: u64) -> Seq<WritePart> {
    if pacing_ms > 0 {
        seq![WritePart::Byte { value }, WritePart::Pause { ms: pacing_ms }]
    } else {
        seq![WritePart::Byte { value }]
    }
}

/// The error for a serial device that is not open.
pub open spec fn not_open() -> ErrorView {
    fault(ErrorCode::SerialOpenFailed, "serial_write"@, "serial device is not open"@)
}

/// The error for a write to a serial device that failed.
pub fn write_failed(reason: String) -> (error: Error)
    ensures
        error@ == fault(ErrorCode::SerialDisconnected, "serial_write"@, reason@),
{
    Error::new(ErrorCode::SerialDisconnected, "serial_write", reason)
}

/// `result` is an operation on the board, ready to be run, or says that there is no such board.
pub open spec fn is_plan(
    result: Result<Operation, Error>,
    boards: Map<Seq<char>, Board>,
    board_id: Seq<char>,
    name: Seq<char>,
    expected: Option<Seq<char>>,
    policy: Option<Seq<char>>,
    steps: Seq<StepView>,
) -> bool {
    if boards.dom().contains(board_id) {
        &&& result matches Ok(operation)
        &&& operation.wf()
        &&& is_operation_id(operation@.operation_id)
        &&& operation@ == planned(
            operation@.operation_id,
            board_id,
            name,
            expected,
            policy,
            steps,
        )
    } else {
        result matches Err(error) && error@ == board_not_found(board_id)
    }
}

/// The error for a request that was not confirmed.
pub open spec fn unconfirmed(message: Seq<char>) -> ErrorView {
    fault(ErrorCode::ConfirmationRequired, "confirmation"@, message)
}

pub(crate) fn text_line(text: &str) -> (bytes: Vec<u8>)
    ensures
        bytes@ == line(text@),
{
    let mut full = text.to_owned();
    full.append("\r");
    copy_bytes(full.as_str().as_bytes())
}

fn note(text: &str) -> (step: Step)
    ensures
        step@ == (StepView::Note { text: text@ }),
{
    Step::Note { text: text.to_owned() }
}

fn await_state(state: BoardState, timeout_ms: u64) -> (step: Step)
    ensures
        step@ == (StepView::Await {
            states: seq![state],
            timeout_ms: timeout_ms as int,
            fresh: true,
        }),
{
    let mut states: Vec<BoardState> = Vec::new();
    states.push(state);
    assert(states@ == seq![state]);
    Step::Await { states, timeout_ms, fresh: true }
}

fn push(steps: &mut VecDeque<Step>, step: Step)
    ensures
        step_views(final(steps)@) == step_views(old(steps)@).push(step@),
{
    let ghost before = steps@;
    steps.push_back(step);
    assert(step_views(steps@) == step_views(before).push(step@));
}

fn no_steps() -> (steps: VecDeque<Step>)
    ensures
        step_views(steps@) == Seq::<StepView>::empty(),
{
    let steps: VecDeque<Step> = VecDeque::new();
    assert(step_views(steps@) == Seq::<StepView>::empty());
    steps
}

fn push_interrupt(steps: &mut VecDeque<Step>, profile: &BoardProfile, timeout_ms: u64)
    ensures
        step_views(final(steps)@) == step_views(old(steps)@) + interrupt_steps(
            *profile,
            timeout_ms as int,
        ),
{
    let ghost before = step_views(steps@);
    push(steps, await_state(BoardState::UbootCountdown, timeout_ms));
    push(steps, Step::Cursor);
    push(
        steps,
        Step::Send { bytes: copy_bytes(profile.uboot.interrupt.as_str().as_bytes()) },
    );
    push(steps, note("interrupted the fresh U-Boot autoboot countdown"));
    push(steps, await_state(BoardState::UbootPrompt, 10_000));
    assert(step_views(steps@) == before + interrupt_steps(*profile, timeout_ms as int));
}

fn push_from_off(steps: &mut VecDeque<Step>, error: Error)
    ensures
        step_views(final(steps)@) == step_views(old(steps)@) + from_off_steps(error@),
{
    let ghost before = step_views(steps@);
    push(steps, Step::RequireOff { error });
    push(steps, Step::Power { on: true, restore: false });
    push(steps, Step::Mark);
    push(steps, Step::Cursor);
    push(steps, note("verified relay on"));
    assert(step_views(steps@) == before + from_off_steps(error@));
}

fn push_login(steps: &mut VecDeque<Step>, profile: &BoardProfile, timeout_ms: u64)
    ensures
        step_views(final(steps)@) == step_views(old(steps)@) + login_steps(
            *profile,
            timeout_ms as int,
        ),
{
    let ghost before = step_views(steps@);
    push(steps, Step::StopIf { state: BoardState::LinuxShell });
    match &profile.linux.account {
        Some(account) => {
            push(steps, Step::Cursor);
            push(steps, Step::Send { bytes: text_line(account.as_str()) });
            push(steps, note("sent configured Linux account"));
            push(steps, await_state(BoardState::LinuxShell, timeout_ms));
        },
        None => {
            push(
                steps,
                Step::Fail {
                    error: Error::new(
                        ErrorCode::InvalidConfiguration,
                        "linux_login",
                        "Linux account is not configured".to_owned(),
                    ),
                },
            );
        },
    }
    assert(step_views(steps@) == before + login_steps(*profile, timeout_ms as int));
}

impl BoardRegistry {
    /// An operation on a board that exists.
    fn operation(
        &self,
        operation_id: String,
        board_id: &str,
        name: &str,
        expected: Option<&str>,
        policy: Option<&str>,
        steps: VecDeque<Step>,
    ) -> (operation: Operation)
        ensures
            operation.wf(),
            operation@ == planned(
                operation_id@,
                board_id@,
                name@,
                match expected {
                    Some(text) => Some(text@),
                    None => None,
                },
                match policy {
                    Some(text) => Some(text@),
                    None => None,
                },
                step_views(steps@),
            ),
    {
        let expected = match expected {
            Some(text) => Some(text.to_owned()),
            None => None,
        };
        let policy = match policy {
            Some(text) => Some(text.to_owned()),
            None => None,
        };
        Operation::new(
            operation_id,
            board_id.to_owned(),
            name.to_owned(),
            expected,
            policy,
            steps,
        )
    }

    /// A dialogue that queries the power of a board.
    pub fn power_state(&self, board_id: &str) -> (result: Result<PowerTask, Error>)
        requires
            self.wf(),
        ensures
            if self@.dom().contains(board_id@) {
                match task_for(self@[board_id@].profile.power, PowerGoal::Query) {
                    Ok(view) => result matches Ok(task) && task@ == view,
                    Err(view) => result matches Err(error) && error@ == view,
                }
            } else {
                result matches Err(error) && error@ == board_not_found(board_id@)
            },
    {
        match self.board(board_id) {
            Ok(board) => PowerTask::new(&board.profile.power, PowerGoal::Query),
            Err(error) => Err(error),
        }
    }

    /// The operation that turns a board on.
    pub fn power_on(&self, board_id: &str) -> (result: Result<Operation, Error>)
        requires
            self.wf(),
        ensures
            is_plan(result, self@, board_id@, "power_on"@, None, None, power_on_steps()),
    {
        match self.board(board_id) {
            Ok(_) => {},
            Err(error) => {
                return Err(error);
            },
        }
        let mut steps = no_steps();
        push(&mut steps, Step::Power { on: true, restore: false });
        push(&mut steps, Step::Mark);
        push(&mut steps, note("verified relay on"));
        assert(step_views(steps@) == power_on_steps());
        let id = fresh_operation_id();
        Ok(self.operation(id, board_id, "power_on", None, None, steps))
    }

    /// The operation that turns on a board that is off, and stops it in U-Boot.
    pub fn power_on_uboot(&self, board_id: &str, timeout_ms: u64) -> (result: Result<
        Operation,
        Error,
    >)
        requires
            self.wf(),
        ensures
            is_plan(
                result,
                self@,
                board_id@,
                "power_on_uboot"@,
                Some("uboot_prompt"@),
                None,
                power_on_uboot_steps(self@[board_id@].profile, timeout_ms as int),
            ),
    {
        let board = match self.board(board_id) {
            Ok(board) => board,
            Err(error) => {
                return Err(error);
            },
        };
        let mut steps = no_steps();
        push_from_off(
            &mut steps,
            Error::new(
                ErrorCode::PowerStateUnverified,
                "power_on_uboot",
                "board is already powered on; use enter_uboot instead".to_owned(),
            ),
        );
        push_interrupt(&mut steps, &board.profile, timeout_ms);
        assert(step_views(steps@) == power_on_uboot_steps(board.profile, timeout_ms as int));
        let id = fresh_operation_id();
        Ok(self.operation(id, board_id, "power_on_uboot", Some("uboot_prompt"), None, steps))
    }

    /// The operation that turns on a board that is off, waits for Linux and logs in where asked
    /// to.
    pub fn power_on_linux(&self, board_id: &str, login: bool, timeout_ms: u64) -> (result: Result<
        Operation,
        Error,
    >)
        requires
            self.wf(),
        ensures
            is_plan(
                result,
                self@,
                board_id@,
                "power_on_linux"@,
                Some(
                    if login {
                        "linux_shell"@
                    } else {
                        "linux_login"@
                    },
                ),
                None,
                power_on_linux_steps(self@[board_id@].profile, login, timeout_ms as int),
            ),
    {
        let board = match self.board(board_id) {
            Ok(board) => board,
            Err(error) => {
                return Err(error);
            },
        };
        let mut steps = no_steps();
        push_from_off(
            &mut steps,
            Error::new(
                ErrorCode::PowerStateUnverified,
                "power_on_linux",
                "board is already powered on; use boot_linux or linux_login instead".to_owned(),
            ),
        );
        let mut states: Vec<BoardState> = Vec::new();
        states.push(BoardState::LinuxLogin);
        states.push(BoardState::LinuxShell);
        assert(states@ == seq![BoardState::LinuxLogin, BoardState::LinuxShell]);
        push(&mut steps, Step::Await { states, timeout_ms, fresh: true });
        assert(step_views(steps@) == power_on_linux_steps(
            board.profile,
            false,
            timeout_ms as int,
        ));
        if login {
            push_login(&mut steps, &board.profile, timeout_ms);
        }
        assert(step_views(steps@) == power_on_linux_steps(
            board.profile,
            login,
            timeout_ms as int,
        ));
        let expected = if login {
            "linux_shell"
        } else {
            "linux_login"
        };
        let id = fresh_operation_id();
        Ok(self.operation(id, board_id, "power_on_linux", Some(expected), None, steps))
    }

    /// The operation that cuts a board's power.
    pub fn forced_power_off(&self, board_id: &str, confirmed: bool) -> (result: Result<
        Operation,
        Error,
    >)
        requires
            self.wf(),
        ensures
            if confirmed {
                is_plan(
                    result,
                    self@,
                    board_id@,
                    "power_off"@,
                    Some("powered_off"@),
                    None,
                    forced_power_off_steps(),
                )
            } else {
                result matches Err(error) && error@ == unconfirmed(
                    "forced power-off requires confirmation=true"@,
                )
            },
    {
        if !confirmed {
            return Err(
                Error::new(
                    ErrorCode::ConfirmationRequired,
                    "confirmation",
                    "forced power-off requires confirmation=true".to_owned(),
                ),
            );
        }
        match self.board(board_id) {
            Ok(_) => {},
            Err(error) => {
                return Err(error);
            },
        }
        let mut steps = no_steps();
        push(&mut steps, Step::Power { on: false, restore: false });
        push(&mut steps, note("forced relay off"));
        assert(step_views(steps@) == forced_power_off_steps());
        let id = fresh_operation_id();
        Ok(self.operation(id, board_id, "power_off", Some("powered_off"), None, steps))
    }

    /// The operation that turns a board off and on again.
    pub fn power_cycle(&self, board_id: &str, confirmed: bool) -> (result: Result<
        Operation,
        Error,
    >)
        requires
            self.wf(),
        ensures
            if confirmed {
                is_plan(
                    result,
                    self@,
                    board_id@,
                    "power_cycle"@,
                    None,
                    None,
                    power_cycle_steps(self@[board_id@].profile),
                )
            } else {
                result matches Err(error) && error@ == unconfirmed(
                    "power cycle requires confirmation=true"@,
                )
            },
    {
        if !confirmed {
            return Err(
                Error::new(
                    ErrorCode::ConfirmationRequired,
                    "confirmation",
                    "power cycle requires confirmation=true".to_owned(),
                ),
            );
        }
        let board = match self.board(board_id) {
            Ok(board) => board,
            Err(error) => {
                return Err(error);
            },
        };
        let mut steps = no_steps();
        push(&mut steps, Step::Power { on: false, restore: false });
        push(&mut steps, note("verified relay off"));
        push(&mut steps, Step::Pause { ms: board.profile.timing.power_cycle_off_ms });
        push(&mut steps, Step::Power { on: true, restore: true });
        push(&mut steps, Step::Mark);
        push(&mut steps, note("verified relay restored on"));
        assert(step_views(steps@) == power_cycle_steps(board.profile));
        let id = fresh_operation_id();
        Ok(self.operation(id, board_id, "power_cycle", None, None, steps))
    }

    /// The operation that shuts Linux down and cuts the board's power after that.
    pub fn graceful_power_off(&self, board_id: &str, confirmed: bool) -> (result: Result<
        Operation,
        Error,
    >)
        requires
            self.wf(),
        ensures
            if confirmed {
                is_plan(
                    result,
                    self@,
                    board_id@,
                    "power_off"@,
                    Some("powered_off"@),
                    None,
                    graceful_power_off_steps(self@[board_id@].profile),
                )
            } else {
                result matches Err(error) && error@ == unconfirmed(
                    "graceful power-off requires confirmation=true"@,
                )
            },
    {
        if !confirmed {
            return Err(
                Error::new(
                    ErrorCode::ConfirmationRequired,
                    "confirmation",
                    "graceful power-off requires confirmation=true".to_owned(),
                ),
            );
        }
        let board = match self.board(board_id) {
            Ok(board) => board,
            Err(error) => {
                return Err(error);
            },
        };
        let mut steps = no_steps();
        push(
            &mut steps,
            Step::Require {
                state: BoardState::LinuxShell,
                error: Error::new(
                    ErrorCode::ShellNotSynchronized,
                    "shutdown",
                    "a verified Linux shell is required".to_owned(),
                ),
            },
        );
        match &board.profile.linux.shutdown_command {
            Some(shutdown) => {
                push(&mut steps, Step::Send { bytes: text_line("sync") });
                push(&mut steps, note("sent sync"));
                push(&mut steps, Step::Pause { ms: 1_000 });
                push(&mut steps, Step::Send { bytes: text_line(shutdown.as_str()) });
                push(&mut steps, note("sent configured shutdown command"));
                let mut states: Vec<BoardState> = Vec::new();
                states.push(BoardState::ShutdownInProgress);
                assert(states@ == seq![BoardState::ShutdownInProgress]);
                push(
                    &mut steps,
                    Step::Await {
                        states,
                        timeout_ms: board.profile.operation_timeout(),
                        fresh: false,
                    },
                );
                push(&mut steps, Step::Power { on: false, restore: false });
                push(&mut steps, note("verified relay off after shutdown"));
            },
            None => {
                push(
                    &mut steps,
                    Step::Fail {
                        error: Error::new(
                            ErrorCode::InvalidConfiguration,
                            "shutdown",
                            "shutdown_command is not configured".to_owned(),
                        ),
                    },
                );
            },
        }
        assert(step_views(steps@) == graceful_power_off_steps(board.profile));
        let id = fresh_operation_id();
        Ok(self.operation(id, board_id, "power_off", Some("powered_off"), None, steps))
    }

    /// The operation that writes to a board's console and waits for states to show.
    pub fn simple_console_operation(
        &self,
        board_id: &str,
        name: &str,
        bytes: &[u8],
        expected: &[BoardState],
        timeout_ms: u64,
        new_generation: bool,
    ) -> (result: Result<Operation, Error>)
        requires
            self.wf(),
        ensures
            is_plan(
                result,
                self@,
                board_id@,
                name@,
                None,
                None,
                console_steps(name@, bytes@, expected@, timeout_ms as int, new_generation),
            ),
    {
        match self.board(board_id) {
            Ok(_) => {},
            Err(error) => {
                return Err(error);
            },
        }
        let mut steps = no_steps();
        if new_generation {
            push(&mut steps, Step::Mark);
        }
        push(&mut steps, Step::Cursor);
        push(&mut steps, Step::Send { bytes: copy_bytes(bytes) });
        let mut done = "sent configured console input for ".to_owned();
        done.append(name);
        push(&mut steps, note(done.as_str()));
        push(&mut steps, Step::Await { states: copy_states(expected), timeout_ms, fresh: true });
        assert(step_views(steps@) == console_steps(
            name@,
            bytes@,
            expected@,
            timeout_ms as int,
            new_generation,
        ));
        let id = fresh_operation_id();
        Ok(self.operation(id, board_id, name, None, None, steps))
    }

    /// The operation that reboots a board from Linux and stops it in U-Boot.
    pub fn reboot_into_uboot(&self, board_id: &str, timeout_ms: u64) -> (result: Result<
        Operation,
        Error,
    >)
        requires
            self.wf(),
        ensures
            is_plan(
                result,
                self@,
                board_id@,
                "enter_uboot"@,
                None,
                None,
                reboot_into_uboot_steps(self@[board_id@].profile, timeout_ms as int),
            ),
    {
        self.restart_into_uboot(
            board_id,
            "reboot",
            "sent configured Linux reboot command",
            timeout_ms,
        )
    }

    /// The operation that resets a board from U-Boot and stops it in U-Boot again.
    pub fn reset_into_uboot(&self, board_id: &str, timeout_ms: u64) -> (result: Result<
        Operation,
        Error,
    >)
        requires
            self.wf(),
        ensures
            is_plan(
                result,
                self@,
                board_id@,
                "enter_uboot"@,
                None,
                None,
                reset_into_uboot_steps(self@[board_id@].profile, timeout_ms as int),
            ),
    {
        self.restart_into_uboot(
            board_id,
            "reset",
            "sent configured U-Boot reset command",
            timeout_ms,
        )
    }

    fn restart_into_uboot(
        &self,
        board_id: &str,
        command: &str,
        done: &str,
        timeout_ms: u64,
    ) -> (result: Result<Operation, Error>)
        requires
            self.wf(),
        ensures
            is_plan(
                result,
                self@,
                board_id@,
                "enter_uboot"@,
                None,
                None,
                restart_steps(self@[board_id@].profile, command@, done@, timeout_ms as int),
            ),
    {
        let board = match self.board(board_id) {
            Ok(board) => board,
            Err(error) => {
                return Err(error);
            },
        };
        let mut steps = no_steps();
        push(&mut steps, Step::Mark);
        push(&mut steps, Step::Cursor);
        push(&mut steps, Step::Send { bytes: text_line(command) });
        push(&mut steps, note(done));
        push_interrupt(&mut steps, &board.profile, timeout_ms);
        assert(step_views(steps@) == restart_steps(
            board.profile,
            command@,
            done@,
            timeout_ms as int,
        ));
        let id = fresh_operation_id();
        Ok(self.operation(id, board_id, "enter_uboot", None, None, steps))
    }

    /// The operation that runs a command of one line, in Linux or in U-Boot.
    pub fn console_command(
        &self,
        board_id: &str,
        name: &str,
        command: &str,
        linux: bool,
        timeout_ms: u64,
    ) -> (result: Result<Operation, Error>)
        requires
            self.wf(),
        ensures
            if self@.dom().contains(board_id@) && !one_line(command@) {
                result matches Err(error) && error@ == not_one_line()
            } else {
                is_plan(
                    result,
                    self@,
                    board_id@,
                    name@,
                    None,
                    Some("unrestricted"@),
                    if linux {
                        linux_command_steps(
                            command@,
                            result->Ok_0@.operation_id,
                            timeout_ms as int,
                        )
                    } else {
                        uboot_command_steps(command@, timeout_ms as int)
                    },
                )
            },
    {
        match self.board(board_id) {
            Ok(_) => {},
            Err(error) => {
                return Err(error);
            },
        }
        match validate_one_line(command) {
            Ok(()) => {},
            Err(error) => {
                return Err(error);
            },
        }
        let id = fresh_operation_id();
        let mut done = "sent console command ".to_owned();
        done.append(debug_quoted(command).as_str());
        let mut steps = no_steps();
        if linux {
            let mut marker = "__RPICTL_".to_owned();
            marker.append(remove(id.as_str(), '-').as_str());
            marker.append("__");
            let mut wire = command.to_owned();
            wire.append("; printf '\\n");
            wire.append(marker.as_str());
            wire.append(":%s\\n' \"$?\"");
            push(&mut steps, Step::Cursor);
            push(&mut steps, Step::Send { bytes: text_line(wire.as_str()) });
            push(&mut steps, note(done.as_str()));
            push(&mut steps, await_state(BoardState::LinuxShell, timeout_ms));
            push(&mut steps, Step::Transcript { marker: Some(marker) });
            assert(step_views(steps@) == linux_command_steps(command@, id@, timeout_ms as int));
        } else {
            push(&mut steps, Step::Cursor);
            proof {
                reveal_strlit("");
                assert(""@ == Seq::<char>::empty());
            }
            push(&mut steps, Step::Send { bytes: text_line("") });
            push(&mut steps, await_state(BoardState::UbootPrompt, 2_000));
            push(&mut steps, note("synchronized the U-Boot prompt"));
            push(&mut steps, Step::Cursor);
            push(&mut steps, Step::Send { bytes: text_line(command) });
            push(&mut steps, note(done.as_str()));
            push(&mut steps, await_state(BoardState::UbootPrompt, timeout_ms));
            push(&mut steps, Step::Transcript { marker: None });
            assert(step_views(steps@) == uboot_command_steps(command@, timeout_ms as int));
        }
        Ok(self.operation(id, board_id, name, None, Some("unrestricted"), steps))
    }

    /// The operation that makes a board's console show its prompt.
    pub fn probe(&self, board_id: &str, duration_ms: u64) -> (result: Result<Operation, Error>)
        requires
            self.wf(),
        ensures
            is_plan(
                result,
                self@,
                board_id@,
                "get_board_state"@,
                None,
                None,
                probe_steps(duration_ms as int),
            ),
    {
        match self.board(board_id) {
            Ok(_) => {},
            Err(error) => {
                return Err(error);
            },
        }
        let mut steps = no_steps();
        push(&mut steps, Step::Cursor);
        proof {
            reveal_strlit("");
            assert(""@ == Seq::<char>::empty());
        }
        push(&mut steps, Step::Send { bytes: text_line("") });
        push(&mut steps, note("sent one carriage return to probe the console"));
        push(&mut steps, Step::Pause { ms: duration_ms });
        assert(step_views(steps@) == probe_steps(duration_ms as int));
        let id = fresh_operation_id();
        Ok(self.operation(id, board_id, "get_board_state", None, None, steps))
    }

    /// How bytes are to be written to a board's console, where its serial device is open.
    pub fn write_console(&self, board_id: &str, bytes: &[u8], open: bool) -> (result: Result<
        Vec<WritePart>,
        Error,
    >)
        requires
            self.wf(),
        ensures
            if !self@.dom().contains(board_id@) {
                result matches Err(error) && error@ == board_not_found(board_id@)
            } else if !open {
                result matches Err(error) && error@ == not_open()
            } else {
                result matches Ok(parts) && parts@ == write_parts(
                    bytes@,
                    self@[board_id@].profile.timing.serial_pacing_ms,
                )
            },
    {
        let board = match self.board(board_id) {
            Ok(board) => board,
            Err(error) => {
                return Err(error);
            },
        };
        if !open {
            return Err(
                Error::new(
                    ErrorCode::SerialOpenFailed,
                    "serial_write",
                    "serial device is not open".to_owned(),
                ),
            );
        }
        let ms: u64 = board.profile.timing.serial_pacing_ms;
        let mut parts: Vec<WritePart> = Vec::new();
        let mut i: usize = 0;
        assert(bytes@.skip(0) == bytes@);
        assert(parts@ + write_parts(bytes@, ms) == write_parts(bytes@, ms));
        while i < bytes.len()
            invariant
                i <= bytes@.len(),
                parts@ + write_parts(bytes@.skip(i as int), ms) == write_parts(bytes@, ms),
            decreases bytes@.len() - i,
        {
            let ghost before = parts@;
            let ghost rest = bytes@.skip(i as int);
            let value: u8 = bytes[i];
            parts.push(WritePart::Byte { value });
            if ms > 0 {
                parts.push(WritePart::Pause { ms });
            }
            proof {
                assert(rest.first() == value);
                assert(rest.drop_first() == bytes@.skip(i + 1));
                assert(parts@ == before + paced(value, ms));
                assert(before + write_parts(rest, ms) == parts@ + write_parts(
                    bytes@.skip(i + 1),
                    ms,
                ));
            }
            i += 1;
        }
        assert(bytes@.skip(bytes@.len() as int) == Seq::<u8>::empty());
        parts.push(WritePart::Flush);
        assert(parts@ == write_parts(bytes@, ms));
        Ok(parts)
    }

    /// Asks for the lease under which the operation runs.
    pub(crate) fn lease_for(&mut self, operation: &Operation, remaining: u128) -> (result: Result<
        LeaseOutcome,
        Error,
    >)
        requires
            old(self).wf(),
        ensures
            final(self).wf(),
            ({
                let id = operation@.board_id;
                if old(self)@.dom().contains(id) {
                    &&& final(self)@ == old(self)@.insert(
                        id,
                        (Board { lease: final(self)@[id].lease, ..old(self)@[id] }),
                    )
                    &&& acquired(
                        old(self)@[id].lease@,
                        operation@.owner(),
                        remaining as int,
                        result,
                        final(self)@[id].lease@,
                    )
                } else {
                    &&& final(self)@ == old(self)@
                    &&& result matches Err(error) && error@ == board_not_found(id)
                }
            }),
    {
        self.acquire(operation.board_id(), operation.owner(), remaining)
    }

    /// Ends an operation that is over: its lease is released, and it returns its error or a
    /// report. The board's state is the one that its console shows.
    pub(crate) fn finish(
        &mut self,
        operation: Operation,
        guard: LeaseGuard,
        started_ms: u64,
        finished_ms: u64,
    ) -> (result: Result<OperationResult, Error>)
        requires
            old(self).wf(),
            operation@.activity is Ended,
        ensures
            final(self).wf(),
            ({
                let id = operation@.board_id;
                if old(self)@.dom().contains(id) {
                    &&& final(self)@ == old(self)@.insert(
                        id,
                        (Board { lease: final(self)@[id].lease, ..old(self)@[id] }),
                    )
                    &&& final(self)@[id].lease@ == released(old(self)@[id].lease@, guard@)
                } else {
                    final(self)@ == old(self)@
                }
            }),
            reported(
                result,
                operation@,
                if old(self)@.dom().contains(operation@.board_id) {
                    old(self)@[operation@.board_id].current_state()
                } else {
                    BoardState::Unknown
                },
                started_ms as int,
                finished_ms as int,
            ),
    {
        let state = match self.observed_state(operation.board_id()) {
            Ok(state) => state,
            Err(_) => BoardState::Unknown,
        };
        self.release(operation.board_id(), guard);
        operation.conclude(state, started_ms, finished_ms)
    }
}

fn copy_states(states: &[BoardState]) -> (copy: Vec<BoardState>)
    ensures
        copy@ == states@,
{
    let mut copy: Vec<BoardState> = Vec::new();
    let mut i: usize = 0;
    while i < states.len()
        invariant
            i <= states@.len(),
            copy@ == states@.take(i as int),
        decreases states@.len() - i,
    {
        copy.push(states[i]);
        i += 1;
        assert(copy@ == states@.take(i as int));
    }
    assert(states@.take(states@.len() as int) == states@);
    copy
}

/// The bytes among the parts of a write.
pub open spec fn written(parts: Seq<WritePart>) -> Seq<u8>
    decreases parts.len(),
{
    if parts.len() == 0 {
        Seq::empty()
    } else {
        match parts.first() {
            WritePart::Byte { value } => seq![value] + written(parts.drop_first()),
            _ => written(parts.drop_first()),
        }
    }
}

/// Where part `i` is a byte, the pause comes next.
pub open spec fn paused_after(parts: Seq<WritePart>, i: int, pacing_ms: u64) -> bool {
    parts[i] is Byte ==> i + 1 < parts.len() && parts[i + 1] == (WritePart::Pause {
        ms: pacing_ms,
    })
}

/// Writing puts exactly the bytes given on the line, in order, and ends with a flush. Where a
/// pause is configured, one follows each byte.
pub proof fn writing_is_faithful(bytes: Seq<u8>, pacing_ms: u64)
    ensures
        written(write_parts(bytes, pacing_ms)) == bytes,
        write_parts(bytes, pacing_ms).last() is Flush,
        pacing_ms > 0 ==> forall|i: int|
            0 <= i < write_parts(bytes, pacing_ms).len() ==> #[trigger] paused_after(
                write_parts(bytes, pacing_ms),
                i,
                pacing_ms,
            ),
    decreases bytes.len(),
{
    let parts = write_parts(bytes, pacing_ms);
    if bytes.len() == 0 {
        assert(parts.drop_first() == Seq::<WritePart>::empty());
        assert(written(parts.drop_first()) == Seq::<u8>::empty());
    } else {
        let rest = write_parts(bytes.drop_first(), pacing_ms);
        writing_is_faithful(bytes.drop_first(), pacing_ms);
        assert(parts.first() == (WritePart::Byte { value: bytes.first() }));
        if pacing_ms > 0 {
            assert(parts.drop_first().first() == (WritePart::Pause { ms: pacing_ms }));
            assert(parts.drop_first().drop_first() == rest);
            assert(written(parts.drop_first()) == written(rest));
            assert forall|i: int| 0 <= i < parts.len() implies #[trigger] paused_after(
                parts,
                i,
                pacing_ms,
            ) by {
                if i >= 2 {
                    assert(paused_after(rest, i - 2, pacing_ms));
                    assert(parts[i] == rest[i - 2]);
                    if i + 1 < parts.len() {
                        assert(parts[i + 1] == rest[i - 1]);
                    }
                }
            }
        } else {
            assert(parts.drop_first() == rest);
        }
        assert(written(parts) == seq![bytes.first()] + written(rest));
        assert(seq![bytes.first()] + bytes.drop_first() == bytes);
        assert(parts.last() == rest.last());
    }
}

/// A step that neither fails nor changes power: it only notes something or lets time pass.
pub open spec fn harmless(step: StepView) -> bool {
    step is Note || step is Pause
}

/// Power that is switched off at step `i` is switched on again, with a second attempt where the
/// first fails, and nothing that could fail stands between.
pub open spec fn turned_on_after(steps: Seq<StepView>, i: int) -> bool {
    exists|j: int|
        i < j < steps.len() && #[trigger] steps[j] == (StepView::Power { on: true, restore: true })
            && forall|k: int| i < k < j ==> harmless(#[trigger] steps[k])
}

/// No step leaves power off.
pub open spec fn leaves_power_on(steps: Seq<StepView>) -> bool {
    forall|i: int|
        0 <= i < steps.len() && (#[trigger] steps[i] matches StepView::Power { on, restore } && !on)
            ==> turned_on_after(steps, i)
}

/// No operation but a power-off leaves power off: whatever switches it off switches it on again.
pub proof fn only_power_off_leaves_power_off(
    profile: BoardProfile,
    login: bool,
    timeout_ms: int,
    name: Seq<char>,
    bytes: Seq<u8>,
    states: Seq<BoardState>,
    new_generation: bool,
    command: Seq<char>,
    operation_id: Seq<char>,
    duration_ms: int,
)
    ensures
        leaves_power_on(power_on_steps()),
        leaves_power_on(power_on_uboot_steps(profile, timeout_ms)),
        leaves_power_on(power_on_linux_steps(profile, login, timeout_ms)),
        leaves_power_on(power_cycle_steps(profile)),
        leaves_power_on(console_steps(name, bytes, states, timeout_ms, new_generation)),
        leaves_power_on(reboot_into_uboot_steps(profile, timeout_ms)),
        leaves_power_on(reset_into_uboot_steps(profile, timeout_ms)),
        leaves_power_on(linux_command_steps(command, operation_id, timeout_ms)),
        leaves_power_on(uboot_command_steps(command, timeout_ms)),
        leaves_power_on(probe_steps(duration_ms)),
{
    let cycle = power_cycle_steps(profile);
    assert(cycle[3] == (StepView::Power { on: true, restore: true }));
    assert(turned_on_after(cycle, 0));
}

/// A power cycle keeps power off for the configured time: the pause stands between the switch
/// off and the switch on, with nothing but a note beside it.
pub proof fn power_cycle_keeps_the_off_interval(profile: BoardProfile)
    ensures
        power_cycle_steps(profile)[0] == (StepView::Power { on: false, restore: false }),
        power_cycle_steps(profile)[1] is Note,
        power_cycle_steps(profile)[2] == (StepView::Pause {
            ms: profile.timing.power_cycle_off_ms as int,
        }),
        power_cycle_steps(profile)[3] == (StepView::Power { on: true, restore: true }),
{
}

/// A graceful power-off switches power off only after it has found a Linux shell, sent the
/// shutdown command and seen the shutdown in progress.
pub proof fn graceful_power_off_shuts_down_first(profile: BoardProfile, i: int)
    requires
        0 <= i < graceful_power_off_steps(profile).len(),
        graceful_power_off_steps(profile)[i] is Power,
    ensures
        graceful_power_off_steps(profile)[0] matches StepView::Require { state, error } && state
            == BoardState::LinuxShell,
        profile.linux.shutdown_command matches Some(shutdown) && graceful_power_off_steps(
            profile,
        )[i - 3] == (StepView::Send { bytes: line(shutdown@) }),
        graceful_power_off_steps(profile)[i - 1] matches StepView::Await {
            states,
            timeout_ms,
            fresh,
        } && states == seq![BoardState::ShutdownInProgress],
{
}

/// What an operation notes of a login does not depend on the account: two profiles that both
/// have an account, or both have none, make the same notes.
pub proof fn login_notes_disclose_no_account(
    one: BoardProfile,
    other: BoardProfile,
    login: bool,
    timeout_ms: int,
    i: int,
)
    requires
        one.linux.account is Some <==> other.linux.account is Some,
        0 <= i < power_on_linux_steps(one, login, timeout_ms).len(),
    ensures
        power_on_linux_steps(one, login, timeout_ms).len() == power_on_linux_steps(
            other,
            login,
            timeout_ms,
        ).len(),
        power_on_linux_steps(one, login, timeout_ms)[i] is Note ==> power_on_linux_steps(
            one,
            login,
            timeout_ms,
        )[i] == power_on_linux_steps(other, login, timeout_ms)[i],
{
}

/// What an operation notes of console input does not depend on the input.
pub proof fn console_notes_disclose_no_input(
    name: Seq<char>,
    one: Seq<u8>,
    other: Seq<u8>,
    states: Seq<BoardState>,
    timeout_ms: int,
    new_generation: bool,
    i: int,
)
    requires
        0 <= i < console_steps(name, one, states, timeout_ms, new_generation).len(),
        console_steps(name, one, states, timeout_ms, new_generation)[i] is Note,
    ensures
        console_steps(name, one, states, timeout_ms, new_generation)[i] == console_steps(
            name,
            other,
            states,
            timeout_ms,
            new_generation,
        )[i],
{
}

/// Every wait is for states in fresh output, and a cursor is remembered before it.
pub open spec fn waits_for_fresh_output(steps: Seq<StepView>) -> bool {
    forall|i: int|
        0 <= i < steps.len() && #[trigger] steps[i] is Await ==> steps[i]->fresh && exists|k: int|
            0 <= k < i && #[trigger] steps[k] is Cursor
}

/// Operations that restart a board or write to its console accept no evidence from before.
pub proof fn waits_accept_no_stale_evidence(
    profile: BoardProfile,
    login: bool,
    timeout_ms: int,
    name: Seq<char>,
    bytes: Seq<u8>,
    states: Seq<BoardState>,
    new_generation: bool,
    command: Seq<char>,
    operation_id: Seq<char>,
)
    ensures
        waits_for_fresh_output(power_on_uboot_steps(profile, timeout_ms)),
        waits_for_fresh_output(power_on_linux_steps(profile, login, timeout_ms)),
        waits_for_fresh_output(console_steps(name, bytes, states, timeout_ms, new_generation)),
        waits_for_fresh_output(reboot_into_uboot_steps(profile, timeout_ms)),
        waits_for_fresh_output(reset_into_uboot_steps(profile, timeout_ms)),
        waits_for_fresh_output(linux_command_steps(command, operation_id, timeout_ms)),
        waits_for_fresh_output(uboot_command_steps(command, timeout_ms)),
{
    assert(power_on_uboot_steps(profile, timeout_ms)[3] is Cursor);
    assert(power_on_linux_steps(profile, login, timeout_ms)[3] is Cursor);
    let console = console_steps(name, bytes, states, timeout_ms, new_generation);
    if new_generation {
        assert(console[1] is Cursor);
    } else {
        assert(console[0] is Cursor);
    }
    assert(reboot_into_uboot_steps(profile, timeout_ms)[1] is Cursor);
    assert(reset_into_uboot_steps(profile, timeout_ms)[1] is Cursor);
    assert(linux_command_steps(command, operation_id, timeout_ms)[0] is Cursor);
    assert(uboot_command_steps(command, timeout_ms)[0] is Cursor);
}

proof fn without_concat(a: Seq<char>, b: Seq<char>, c: char)
    ensures
        without(a + b, c) == without(a, c) + without(b, c),
{
    Seq::<char>::filter_distributes_over_add(a, b, |x: char| x != c);
}

proof fn without_absent(s: Seq<char>, c: char)
    requires
        forall|i: int| 0 <= i < s.len() ==> #[trigger] s[i] != c,
    ensures
        without(s, c) == s,
    decreases s.len(),
{
    reveal(Seq::filter);
    if s.len() > 0 {
        assert forall|i: int| 0 <= i < s.drop_last().len() implies #[trigger] s.drop_last()[i]
            != c by {
            assert(s.drop_last()[i] == s[i]);
        }
        without_absent(s.drop_last(), c);
        assert(s.drop_last().push(s.last()) == s);
    }
}

proof fn without_hyphen(a: Seq<char>, b: Seq<char>)
    requires
        forall|i: int| 0 <= i < a.len() ==> #[trigger] a[i] != '-',
    ensures
        without(a + seq!['-'] + b, '-') == a + without(b, '-'),
{
    let hyphen = seq!['-'];
    without_concat(a + hyphen, b, '-');
    without_concat(a, hyphen, '-');
    without_absent(a, '-');
    reveal(Seq::filter);
    assert(hyphen.drop_last() == Seq::<char>::empty());
    without_absent(Seq::<char>::empty(), '-');
    assert(without(hyphen, '-') == Seq::<char>::empty());
    assert(a + Seq::<char>::empty() == a);
}

/// The digits of an operation id.
spec fn id_digits(id: Seq<char>) -> Seq<char> {
    id.subrange(0, 8) + (id.subrange(9, 13) + (id.subrange(14, 18) + (id.subrange(19, 23)
        + id.subrange(24, 36))))
}

proof fn id_without_hyphens(id: Seq<char>)
    requires
        is_operation_id(id),
    ensures
        without(id, '-') == id_digits(id),
{
    let hyphen = seq!['-'];
    assert(forall|i: int|
        0 <= i < 36 && i != 8 && i != 13 && i != 18 && i != 23 ==> #[trigger] id[i] != '-');
    let e = id.subrange(24, 36);
    let d = id.subrange(19, 36);
    let c = id.subrange(14, 36);
    let b = id.subrange(9, 36);
    assert(d == id.subrange(19, 23) + hyphen + e);
    assert(c == id.subrange(14, 18) + hyphen + d);
    assert(b == id.subrange(9, 13) + hyphen + c);
    assert(id == id.subrange(0, 8) + hyphen + b);
    without_absent(e, '-');
    without_hyphen(id.subrange(19, 23), e);
    without_hyphen(id.subrange(14, 18), d);
    without_hyphen(id.subrange(9, 13), c);
    without_hyphen(id.subrange(0, 8), b);
}

/// Different operations mark the end of their commands differently.
pub proof fn completion_markers_are_distinct(one: Seq<char>, other: Seq<char>)
    requires
        is_operation_id(one),
        is_operation_id(other),
        completion_marker(one) == completion_marker(other),
    ensures
        one == other,
{
    id_without_hyphens(one);
    id_without_hyphens(other);
    let x = id_digits(one);
    let y = id_digits(other);
    let head = "__RPICTL_"@;
    let n = head.len() as int;
    assert((head + x + "__"@).subrange(n, n + 32) == x);
    assert((head + y + "__"@).subrange(n, n + 32) == y);
    assert(x == y);
    assert forall|i: int| 0 <= i < 36 implies one[i] == other[i] by {
        if i == 8 || i == 13 || i == 18 || i == 23 {
            assert(one[i] == '-' && other[i] == '-');
        } else if i < 8 {
            assert(x[i] == one[i] && y[i] == other[i]);
        } else if i < 13 {
            assert(x[i - 1] == one[i] && y[i - 1] == other[i]);
        } else if i < 18 {
            assert(x[i - 2] == one[i] && y[i - 2] == other[i]);
        } else if i < 23 {
            assert(x[i - 3] == one[i] && y[i - 3] == other[i]);
        } else {
            assert(x[i - 4] == one[i] && y[i - 4] == other[i]);
        }
    }
    assert(one == other);
}

/// A text without control characters.
pub open spec fn uncontrolled(s: Seq<char>) -> bool {
    forall|i: int| 0 <= i < s.len() ==> !control(#[trigger] s[i])
}

/// A command of one line stays one line on the wire: what is sent for it has no control
/// character before the carriage return that ends it.
pub proof fn commands_are_framed_as_one_line(command: Seq<char>, operation_id: Seq<char>)
    requires
        one_line(command),
        is_operation_id(operation_id),
    ensures
        uncontrolled(command),
        uncontrolled(marked_command(command, completion_marker(operation_id))),
{
    reveal_strlit("__RPICTL_");
    reveal_strlit("__");
    reveal_strlit("; printf '\\n");
    reveal_strlit(":%s\\n' \"$?\"");
    id_without_hyphens(operation_id);
    assert(uncontrolled(id_digits(operation_id)));
    assert(uncontrolled("__RPICTL_"@));
    assert(uncontrolled("__"@));
    assert(uncontrolled("; printf '\\n"@));
    assert(uncontrolled(":%s\\n' \"$?\""@));
}

/// A completion marker starts with an underscore and has neither a semicolon nor a colon.
proof fn marker_characters(operation_id: Seq<char>)
    requires
        is_operation_id(operation_id),
    ensures
        completion_marker(operation_id).len() > 0,
        completion_marker(operation_id)[0] == '_',
        forall|i: int|
            0 <= i < completion_marker(operation_id).len() ==> (#[trigger] completion_marker(
                operation_id,
            )[i]) != ';' && completion_marker(operation_id)[i] != ':',
{
    reveal_strlit("__RPICTL_");
    reveal_strlit("__");
    id_without_hyphens(operation_id);
    assert(forall|i: int|
        0 <= i < 32 ==> (#[trigger] id_digits(operation_id)[i]) != ';' && id_digits(
            operation_id,
        )[i] != ':');
}

/// The console's echo of a Linux command is not taken for its completion: what is sent for a
/// command that does not itself hold the marker does not show the marker with an exit status.
pub proof fn echo_is_not_completion(command: Seq<char>, operation_id: Seq<char>)
    requires
        is_operation_id(operation_id),
        !contains(command, completion_marker(operation_id)),
    ensures
        !contains(
            marked_command(command, completion_marker(operation_id)),
            completion_marker(operation_id) + ":0"@,
        ),
{
    let marker = completion_marker(operation_id);
    let wanted = marker + ":0"@;
    let before = "; printf '\\n"@;
    let after = ":%s\\n' \"$?\""@;
    let text = marked_command(command, marker);
    reveal_strlit(":0");
    reveal_strlit("; printf '\\n");
    reveal_strlit(":%s\\n' \"$?\"");
    marker_characters(operation_id);
    let n = marker.len() as int;
    let c = command.len() as int;
    let a = c + before.len();
    let e = a + n;
    assert(before[0] == ';');
    assert(forall|i: int| 0 <= i < before.len() ==> #[trigger] before[i] != '_');
    assert(forall|i: int| 0 <= i < after.len() ==> #[trigger] after[i] != '_');
    assert(after[0] == ':' && after[1] == '%');
    assert(wanted.len() == n + 2);
    assert forall|at: int| !occurs_at(text, wanted, at) by {
        if occurs_at(text, wanted, at) {
            let piece = text.subrange(at, at + wanted.len());
            if at + n <= c {
                assert forall|i: int| 0 <= i < n implies command.subrange(at, at + n)[i]
                    == marker[i] by {
                    assert(piece[i] == wanted[i]);
                    assert(text[at + i] == command[at + i]);
                }
                assert(command.subrange(at, at + n) == marker);
                assert(occurs_at(command, marker, at));
            } else if at <= c {
                assert(piece[c - at] == wanted[c - at]);
                assert(text[c] == ';');
                assert(wanted[c - at] == marker[c - at]);
            } else if at < a {
                assert(piece[0] == wanted[0]);
                assert(text[at] == before[at - c]);
            } else if at == a {
                assert(piece[n + 1] == wanted[n + 1]);
                assert(text[e + 1] == after[1]);
                assert(wanted[n + 1] == ":0"@[1]);
            } else if at < e {
                assert(piece[e - at] == wanted[e - at]);
                assert(text[e] == after[0]);
                assert(wanted[e - at] == marker[e - at]);
            } else {
                assert(piece[0] == wanted[0]);
                assert(text[at] == after[at - e]);
            }
        }
    }
}

} // verus!
