//! Operations on a board, as programs of steps that are run one at a time.
//!
//! Whoever runs an operation performs the action that it asks for and hands back the event that
//! came of it.

use std::collections::VecDeque;
use std::time::SystemTime;

use vstd::prelude::*;

use crate::config::BoardProfile;
use crate::error::{fault, Error, ErrorCode, ErrorView};
use crate::lease::{LeaseGuard, LeaseOwner, OwnerView};
use crate::observation::{deadline, judge, verdict, WINDOW};
use crate::operations::{harmless, reported, turned_on_after, OperationResult};
use crate::power::{
    dialogues_are_bounded, position, task_for, CommandReply, CommandView, HostCommand, PowerGoal, PowerTask,
    ReplyView, StageView, TaskView,
};
use crate::registry::{board_not_found, untouched, Board, BoardRegistry};
use crate::serial::{
    appended_bytes_read_back, boundary_hides_the_past, cursor_ends_the_contents, drop_front,
    flatten, of_generation, snapshot_is_a_window, total, ChunkView,
};
use crate::state::{classify, silence_is_unknown, BoardState};
use crate::text::{contains, copy_bytes, decoded, has, same, texts};

verus! {

/// How long to rest between two looks at the console, in milliseconds.
pub const POLL_MS: u64 = 100;

/// One step of an operation.
#[derive(Debug)]
pub enum Step {
    /// Switch power and verify it. With `restore`, a failure is followed by one more attempt, and
    /// the error says whether that one succeeded.
    Power { on: bool, restore: bool },
    /// Fail with the error where power is on, and likewise where it is not known to be off.
    RequireOff { error: Error },
    /// Begin a new console generation.
    Mark,
    /// Remember where the console output ends.
    Cursor,
    /// Note what was done.
    Note { text: String },
    /// Write to the console.
    Send { bytes: Vec<u8> },
    /// Rest.
    Pause { ms: u64 },
    /// Wait until the console shows one of the states: with `fresh`, in the output since the
    /// remembered cursor; else in the output of the current generation.
    Await { states: Vec<BoardState>, timeout_ms: u64, fresh: bool },
    /// Fail with the error unless the current generation shows the state.
    Require { state: BoardState, error: Error },
    /// Be done where the last wait ended with the state.
    StopIf { state: BoardState },
    /// Fail.
    Fail { error: Error },
    /// Take the output since the remembered cursor as the result. With a marker, the output has
    /// to show that marker with exit status zero.
    Transcript { marker: Option<String> },
}

/// What a step does.
pub enum StepView {
    Power { on: bool, restore: bool },
    RequireOff { error: ErrorView },
    Mark,
    Cursor,
    Note { text: Seq<char> },
    Send { bytes: Seq<u8> },
    Pause { ms: int },
    Await { states: Seq<BoardState>, timeout_ms: int, fresh: bool },
    Require { state: BoardState, error: ErrorView },
    StopIf { state: BoardState },
    Fail { error: ErrorView },
    Transcript { marker: Option<Seq<char>> },
}

/// What an optional text says.
pub open spec fn text_in(text: Option<String>) -> Option<Seq<char>> {
    match text {
        Some(t) => Some(t@),
        None => None,
    }
}

impl View for Step {
    type V = StepView;

    open spec fn view(&self) -> StepView {
        match self {
            Step::Power { on, restore } => StepView::Power { on: *on, restore: *restore },
            Step::RequireOff { error } => StepView::RequireOff { error: error@ },
            Step::Mark => StepView::Mark,
            Step::Cursor => StepView::Cursor,
            Step::Note { text } => StepView::Note { text: text@ },
            Step::Send { bytes } => StepView::Send { bytes: bytes@ },
            Step::Pause { ms } => StepView::Pause { ms: *ms as int },
            Step::Await { states, timeout_ms, fresh } => StepView::Await {
                states: states@,
                timeout_ms: *timeout_ms as int,
                fresh: *fresh,
            },
            Step::Require { state, error } => StepView::Require { state: *state, error: error@ },
            Step::StopIf { state } => StepView::StopIf { state: *state },
            Step::Fail { error } => StepView::Fail { error: error@ },
            Step::Transcript { marker } => StepView::Transcript { marker: text_in(*marker) },
        }
    }
}

/// What the steps of a list do.
pub open spec fn step_views(steps: Seq<Step>) -> Seq<StepView> {
    steps.map_values(|step: Step| step@)
}

/// What an operation is waiting for.
#[derive(Debug)]
pub enum Activity {
    /// The next step can be taken.
    Ready,
    /// A dialogue with the power controller.
    Powering { task: PowerTask },
    /// The dialogue that tries to restore power after the error.
    Restoring { task: PowerTask, error: Error },
    /// Bytes to be written to the console.
    Sending,
    /// The end of a pause.
    Pausing,
    /// The next look at the console.
    Waiting { deadline_ms: u128 },
    /// The operation is over, and failed where there is an error.
    Ended { failure: Option<Error> },
}

/// What an activity is.
pub enum ActivityView {
    Ready,
    Powering { task: TaskView },
    Restoring { task: TaskView, error: ErrorView },
    Sending,
    Pausing,
    Waiting { deadline_ms: int },
    Ended { failure: Option<ErrorView> },
}

impl View for Activity {
    type V = ActivityView;

    open spec fn view(&self) -> ActivityView {
        match self {
            Activity::Ready => ActivityView::Ready,
            Activity::Powering { task } => ActivityView::Powering { task: task@ },
            Activity::Restoring { task, error } => ActivityView::Restoring {
                task: task@,
                error: error@,
            },
            Activity::Sending => ActivityView::Sending,
            Activity::Pausing => ActivityView::Pausing,
            Activity::Waiting { deadline_ms } => ActivityView::Waiting {
                deadline_ms: *deadline_ms as int,
            },
            Activity::Ended { failure } => ActivityView::Ended {
                failure: match failure {
                    Some(error) => Some(error@),
                    None => None,
                },
            },
        }
    }
}

/// What is to be done next for an operation.
#[derive(Debug)]
pub enum Action {
    /// Ask for the lease, now and whenever one is given back, and at the deadline at last.
    Lease { deadline_ms: u128 },
    /// Let it proceed.
    Proceed,
    /// Run a command on the host.
    Run { command: HostCommand },
    /// Write to the board's console.
    Send { bytes: Vec<u8> },
    /// Let time pass.
    Rest { ms: u64 },
    /// Take the result.
    Finish,
}

/// What an action is.
pub enum ActionView {
    Lease { deadline_ms: int },
    Proceed,
    Run { command: CommandView },
    Send { bytes: Seq<u8> },
    Rest { ms: int },
    Finish,
}

impl View for Action {
    type V = ActionView;

    open spec fn view(&self) -> ActionView {
        match self {
            Action::Lease { deadline_ms } => ActionView::Lease {
                deadline_ms: *deadline_ms as int,
            },
            Action::Proceed => ActionView::Proceed,
            Action::Run { command } => ActionView::Run { command: command@ },
            Action::Send { bytes } => ActionView::Send { bytes: bytes@ },
            Action::Rest { ms } => ActionView::Rest { ms: *ms as int },
            Action::Finish => ActionView::Finish,
        }
    }
}

/// What came of an action.
#[derive(Debug)]
pub enum Event {
    /// The operation may proceed.
    Proceed,
    /// The command was run, or was not.
    Replied { reply: CommandReply },
    /// The bytes were written, or not all of them.
    Sent { result: Result<(), Error> },
    /// The time passed.
    Rested,
}

/// What an event is.
pub enum EventView {
    Proceed,
    Replied { reply: ReplyView },
    Sent { failure: Option<ErrorView> },
    Rested,
}

impl View for Event {
    type V = EventView;

    open spec fn view(&self) -> EventView {
        match self {
            Event::Proceed => EventView::Proceed,
            Event::Replied { reply } => EventView::Replied { reply: reply@ },
            Event::Sent { result } => EventView::Sent {
                failure: match result {
                    Ok(_) => None,
                    Err(error) => Some(error@),
                },
            },
            Event::Rested => EventView::Rested,
        }
    }
}

/// The error after an attempt to restore power.
pub open spec fn after_recovery(error: ErrorView, restored: bool) -> ErrorView {
    ErrorView {
        message: error.message + if restored {
            "; power was restored"@
        } else {
            "; power was not restored"@
        },
        ..error
    }
}

fn with_recovery(error: Error, restored: bool) -> (reported: Error)
    ensures
        reported@ == after_recovery(error@, restored),
{
    let mut message = error.message;
    message.append(
        if restored {
            "; power was restored"
        } else {
            "; power was not restored"
        },
    );
    Error { code: error.code, phase: error.phase, message, recovery: error.recovery }
}

/// The error for a board that has to be off and is not known to be.
pub open spec fn not_known_off(phase: Seq<char>) -> ErrorView {
    fault(ErrorCode::PowerStateUnverified, phase, "board is not known to be powered off"@)
}

/// The error for a command that reported another exit status than zero.
pub open spec fn nonzero_exit() -> ErrorView {
    fault(
        ErrorCode::CommandExitNonzero,
        "command"@,
        "Linux command returned a nonzero exit status"@,
    )
}

/// The error for a command whose end did not show.
pub open spec fn marker_missing() -> ErrorView {
    fault(
        ErrorCode::CommandTimeout,
        "command"@,
        "Linux completion marker was not observed"@,
    )
}

/// What the console output of a command says of its end: it has to show the marker with exit
/// status zero.
pub fn completion(text: &str, marker: &str) -> (result: Result<(), Error>)
    ensures
        if contains(text@, marker@ + ":0"@) {
            result is Ok
        } else if contains(text@, marker@) {
            result matches Err(error) && error@ == nonzero_exit()
        } else {
            result matches Err(error) && error@ == marker_missing()
        },
{
    let mut success = marker.to_owned();
    success.append(":0");
    if has(text, success.as_str()) {
        Ok(())
    } else if has(text, marker) {
        Err(
            Error::new(
                ErrorCode::CommandExitNonzero,
                "command",
                "Linux command returned a nonzero exit status".to_owned(),
            ),
        )
    } else {
        Err(
            Error::new(
                ErrorCode::CommandTimeout,
                "command",
                "Linux completion marker was not observed".to_owned(),
            ),
        )
    }
}

/// An operation on a board.
#[derive(Debug)]
pub struct Operation {
    operation_id: String,
    board_id: String,
    name: String,
    expected: Option<String>,
    policy: Option<String>,
    steps: VecDeque<Step>,
    activity: Activity,
    cursor: u64,
    seen: BoardState,
    output: String,
    actions: Vec<String>,
}

/// What an operation is and how far it has come: `steps` are those still to be taken, the first
/// of them the current one.
pub struct OperationView {
    pub operation_id: Seq<char>,
    pub board_id: Seq<char>,
    pub name: Seq<char>,
    pub expected: Option<Seq<char>>,
    pub policy: Option<Seq<char>>,
    pub steps: Seq<StepView>,
    pub activity: ActivityView,
    pub cursor: int,
    pub seen: BoardState,
    pub output: Seq<char>,
    pub actions: Seq<Seq<char>>,
}

impl View for Operation {
    type V = OperationView;

    closed spec fn view(&self) -> OperationView {
        OperationView {
            operation_id: self.operation_id@,
            board_id: self.board_id@,
            name: self.name@,
            expected: text_in(self.expected),
            policy: text_in(self.policy),
            steps: step_views(self.steps@),
            activity: self.activity@,
            cursor: self.cursor as int,
            seen: self.seen,
            output: self.output@,
            actions: texts(self.actions@),
        }
    }
}

/// An operation that has not begun.
pub open spec fn planned(
    operation_id: Seq<char>,
    board_id: Seq<char>,
    name: Seq<char>,
    expected: Option<Seq<char>>,
    policy: Option<Seq<char>>,
    steps: Seq<StepView>,
) -> OperationView {
    OperationView {
        operation_id,
        board_id,
        name,
        expected,
        policy,
        steps,
        activity: ActivityView::Ready,
        cursor: 0,
        seen: BoardState::Unknown,
        output: Seq::empty(),
        actions: Seq::empty(),
    }
}

impl OperationView {
    /// The owner of the lease under which the operation runs.
    pub open spec fn owner(self) -> OwnerView {
        OwnerView { operation_id: self.operation_id, operation: self.name }
    }

    /// The operation's board is there, and the operation holds its lease.
    pub open spec fn leased(self, boards: Map<Seq<char>, Board>) -> bool {
        boards.dom().contains(self.board_id) && boards[self.board_id].lease@ == Some(self.owner())
    }

    /// The operation with another activity.
    pub open spec fn doing(self, activity: ActivityView) -> OperationView {
        OperationView { activity, ..self }
    }

    /// The operation, failed.
    pub open spec fn failed(self, error: ErrorView) -> OperationView {
        self.doing(ActivityView::Ended { failure: Some(error) })
    }

    /// The operation, done.
    pub open spec fn done(self) -> OperationView {
        self.doing(ActivityView::Ended { failure: None })
    }

    /// The operation after its current step.
    pub open spec fn advanced(self) -> OperationView {
        OperationView { steps: self.steps.drop_first(), activity: ActivityView::Ready, ..self }
    }

    /// The operation after a wait in which `state` was looked at.
    pub open spec fn judged(self, state: BoardState, deadline_ms: int, now_ms: int) -> OperationView {
        match self.steps.first() {
            StepView::Await { states, timeout_ms, fresh } => match verdict(
                state,
                states,
                now_ms >= deadline_ms,
                fresh,
            ) {
                Ok(Some(found)) => OperationView {
                    seen: found,
                    output: "observed "@ + found.name(),
                    ..self.advanced()
                },
                Ok(None) => self.doing(ActivityView::Waiting { deadline_ms }),
                Err(error) => self.failed(error),
            },
            _ => self,
        }
    }

    /// The operation after a look at the console.
    pub open spec fn looked(self, board: Board, deadline_ms: int, now_ms: int) -> OperationView {
        match self.steps.first() {
            StepView::Await { states, timeout_ms, fresh } => self.judged(
                if fresh {
                    board.state_since(self.cursor)
                } else {
                    board.current_state()
                },
                deadline_ms,
                now_ms,
            ),
            _ => self,
        }
    }

    /// The operation after the console output of a command was taken.
    pub open spec fn transcribed(self, text: Seq<char>) -> OperationView {
        match self.steps.first() {
            StepView::Transcript { marker: Some(marker) } => if contains(text, marker + ":0"@) {
                OperationView { output: text, ..self.advanced() }
            } else if contains(text, marker) {
                self.failed(nonzero_exit())
            } else {
                self.failed(marker_missing())
            },
            StepView::Transcript { marker: None } => OperationView {
                output: text,
                ..self.advanced()
            },
            _ => self,
        }
    }

    /// The operation after a power dialogue came to `task`.
    pub open spec fn powered(self, task: TaskView) -> OperationView {
        match task.stage {
            StageView::Ended { result: Ok(observation) } => match self.steps.first() {
                StepView::RequireOff { error } => if observation.state == "on"@ {
                    self.failed(error)
                } else if observation.state == "off"@ {
                    self.advanced()
                } else {
                    self.failed(not_known_off(error.phase))
                },
                _ => OperationView { output: observation.raw, ..self.advanced() },
            },
            StageView::Ended { result: Err(error) } => match self.steps.first() {
                StepView::Power { on, restore: true } => self.doing(
                    ActivityView::Restoring { task: task.restarted(), error },
                ),
                _ => self.failed(error),
            },
            _ => self.doing(ActivityView::Powering { task }),
        }
    }

    /// The operation after the dialogue that restores power came to `task`.
    pub open spec fn restored(self, task: TaskView, error: ErrorView) -> OperationView {
        match task.stage {
            StageView::Ended { result } => self.failed(after_recovery(error, result is Ok)),
            _ => self.doing(ActivityView::Restoring { task, error }),
        }
    }

    /// The operation after its current step was begun.
    pub open spec fn begun(self, board: Board, now_ms: int) -> OperationView {
        match self.steps.first() {
            StepView::Power { on, restore } => match task_for(
                board.profile.power,
                PowerGoal::Switch { on },
            ) {
                Ok(task) => self.doing(ActivityView::Powering { task }),
                Err(error) => self.failed(
                    if restore {
                        after_recovery(error, false)
                    } else {
                        error
                    },
                ),
            },
            StepView::RequireOff { error } => match task_for(
                board.profile.power,
                PowerGoal::Query,
            ) {
                Ok(task) => self.doing(ActivityView::Powering { task }),
                Err(refusal) => self.failed(refusal),
            },
            StepView::Mark => self.advanced(),
            StepView::Cursor => OperationView {
                cursor: board.serial@.next_cursor,
                ..self.advanced()
            },
            StepView::Note { text } => OperationView {
                actions: self.actions.push(text),
                ..self.advanced()
            },
            StepView::Send { bytes } => self.doing(ActivityView::Sending),
            StepView::Pause { ms } => self.doing(ActivityView::Pausing),
            StepView::Await { states, timeout_ms, fresh } => self.looked(
                board,
                now_ms + timeout_ms,
                now_ms,
            ),
            StepView::Require { state, error } => if board.current_state() == state {
                self.advanced()
            } else {
                self.failed(error)
            },
            StepView::StopIf { state } => if self.seen == state {
                self.done()
            } else {
                self.advanced()
            },
            StepView::Fail { error } => self.failed(error),
            StepView::Transcript { marker } => self.transcribed(board.output_since(self.cursor)),
        }
    }

    /// The operation after an event, at a time in milliseconds. An event that it does not wait
    /// for changes nothing.
    pub open spec fn next(
        self,
        boards: Map<Seq<char>, Board>,
        event: EventView,
        now_ms: int,
    ) -> OperationView {
        match (self.activity, event) {
            (ActivityView::Ready, EventView::Proceed) => if self.steps.len() == 0 {
                self.done()
            } else if !boards.dom().contains(self.board_id) {
                self.failed(board_not_found(self.board_id))
            } else {
                self.begun(boards[self.board_id], now_ms)
            },
            (
                ActivityView::Powering { task },
                EventView::Replied { reply },
            ) => self.powered(task.next(reply)),
            (
                ActivityView::Restoring { task, error },
                EventView::Replied { reply },
            ) => self.restored(task.next(reply), error),
            (ActivityView::Sending, EventView::Sent { failure }) => match failure {
                Some(error) => self.failed(error),
                None => self.advanced(),
            },
            (ActivityView::Pausing, EventView::Rested) => self.advanced(),
            (ActivityView::Waiting { deadline_ms }, EventView::Rested) => if !boards.dom().contains(self.board_id) {
                self.failed(board_not_found(self.board_id))
            } else {
                self.looked(boards[self.board_id], deadline_ms, now_ms)
            },
            _ => self,
        }
    }

    /// The event begins a new console generation of the operation's board.
    pub open spec fn marks(self, boards: Map<Seq<char>, Board>, event: EventView) -> bool {
        &&& self.activity is Ready
        &&& event is Proceed
        &&& self.steps.len() > 0
        &&& self.steps.first() is Mark
        &&& boards.dom().contains(self.board_id)
    }

    /// The activity belongs to the current step, and no dialogue is over.
    pub open spec fn coherent(self) -> bool {
        match self.activity {
            ActivityView::Ready => true,
            ActivityView::Powering { task } => {
                &&& self.steps.len() > 0
                &&& task.stage !is Ended
                &&& match self.steps.first() {
                    StepView::Power { on, restore } => task.goal == (PowerGoal::Switch { on }),
                    StepView::RequireOff { error } => task.goal is Query,
                    _ => false,
                }
            },
            ActivityView::Restoring { task, error } => {
                &&& self.steps.len() > 0
                &&& task.stage !is Ended
                &&& self.steps.first() matches StepView::Power { on, restore } && restore
                    && task.goal == (PowerGoal::Switch { on })
            },
            ActivityView::Sending => self.steps.len() > 0 && self.steps.first() is Send,
            ActivityView::Pausing => self.steps.len() > 0 && self.steps.first() is Pause,
            ActivityView::Waiting { deadline_ms } => self.steps.len() > 0
                && self.steps.first() is Await,
            ActivityView::Ended { failure } => true,
        }
    }

    /// What is to be done next.
    pub open spec fn action(self) -> ActionView {
        match self.activity {
            ActivityView::Ready => ActionView::Proceed,
            ActivityView::Powering { task } => match task.command() {
                Some(command) => ActionView::Run { command },
                None => ActionView::Proceed,
            },
            ActivityView::Restoring { task, error } => match task.command() {
                Some(command) => ActionView::Run { command },
                None => ActionView::Proceed,
            },
            ActivityView::Sending => match self.steps.first() {
                StepView::Send { bytes } => ActionView::Send { bytes },
                _ => ActionView::Proceed,
            },
            ActivityView::Pausing => match self.steps.first() {
                StepView::Pause { ms } => ActionView::Rest { ms },
                _ => ActionView::Proceed,
            },
            ActivityView::Waiting { deadline_ms } => ActionView::Rest { ms: POLL_MS as int },
            ActivityView::Ended { failure } => ActionView::Finish,
        }
    }
}

impl Operation {
    /// An operation that has not begun.
    pub(crate) fn new(
        operation_id: String,
        board_id: String,
        name: String,
        expected: Option<String>,
        policy: Option<String>,
        steps: VecDeque<Step>,
    ) -> (operation: Self)
        ensures
            operation@ == planned(
                operation_id@,
                board_id@,
                name@,
                text_in(expected),
                text_in(policy),
                step_views(steps@),
            ),
    {
        let operation = Operation {
            operation_id,
            board_id,
            name,
            expected,
            policy,
            steps,
            activity: Activity::Ready,
            cursor: 0,
            seen: BoardState::Unknown,
            output: String::new(),
            actions: Vec::new(),
        };
        assert(texts(operation.actions@) == Seq::<Seq<char>>::empty());
        operation
    }

    /// The operation is valid.
    pub open spec fn wf(self) -> bool {
        self@.coherent()
    }

    /// The board that the operation is for.
    pub fn board_id(&self) -> (id: &str)
        ensures
            id@ == self@.board_id,
    {
        self.board_id.as_str()
    }

    /// The owner of the lease under which the operation runs.
    pub fn owner(&self) -> (owner: LeaseOwner)
        ensures
            owner@ == self@.owner(),
    {
        LeaseOwner { operation_id: self.operation_id.clone(), operation: self.name.clone() }
    }

    /// Where the console output ended when that was last remembered.
    pub fn cursor(&self) -> (cursor: u64)
        ensures
            cursor == self@.cursor,
    {
        self.cursor
    }

    /// What an operation that is over returns, on a board that shows `state`.
    pub fn conclude(self, state: BoardState, started_ms: u64, finished_ms: u64) -> (result: Result<
        OperationResult,
        Error,
    >)
        requires
            self@.activity is Ended,
        ensures
            reported(result, self@, state, started_ms as int, finished_ms as int),
    {
        if let Activity::Ended { failure: Some(error) } = self.activity {
            return Err(error);
        }
        let elapsed_ms: u64 = if finished_ms > started_ms {
            finished_ms - started_ms
        } else {
            0
        };
        Ok(
            OperationResult {
                operation_id: self.operation_id,
                board_id: self.board_id,
                operation: self.name,
                success: true,
                started_ms,
                finished_ms,
                elapsed_ms,
                expected_state: self.expected,
                observed_state: state.state_name(),
                output: self.output,
                actions: self.actions,
                policy_decision: self.policy,
            },
        )
    }

    /// What is to be done next.
    pub fn action(&self) -> (action: Action)
        requires
            self.wf(),
        ensures
            action@ == self@.action(),
    {
        match &self.activity {
            Activity::Ready => Action::Proceed,
            Activity::Powering { task } => match task.command() {
                Some(command) => Action::Run { command },
                None => Action::Proceed,
            },
            Activity::Restoring { task, error: _ } => match task.command() {
                Some(command) => Action::Run { command },
                None => Action::Proceed,
            },
            Activity::Sending => {
                assert(self@.steps.first() == self.steps@[0]@);
                match &self.steps[0] {
                    Step::Send { bytes } => Action::Send { bytes: copy_bytes(bytes.as_slice()) },
                    _ => Action::Proceed,
                }
            },
            Activity::Pausing => {
                assert(self@.steps.first() == self.steps@[0]@);
                match &self.steps[0] {
                    Step::Pause { ms } => Action::Rest { ms: *ms },
                    _ => Action::Proceed,
                }
            },
            Activity::Waiting { deadline_ms: _ } => Action::Rest { ms: POLL_MS },
            Activity::Ended { failure: _ } => Action::Finish,
        }
    }

    /// Takes what came of the action, at a time in milliseconds. The operation runs under its own
    /// lease, which it keeps.
    pub fn step(
        &mut self,
        registry: &mut BoardRegistry,
        guard: &LeaseGuard,
        event: Event,
        now_ms: u64,
    )
        requires
            old(self).wf(),
            old(registry).wf(),
            guard@ == old(self)@.owner(),
            old(self)@.leased(old(registry)@),
            old(self)@.marks(old(registry)@, event@) ==> old(registry)@[old(
                self,
            )@.board_id].serial@.generation < u64::MAX,
        ensures
            final(self).wf(),
            final(registry).wf(),
            final(self)@ == old(self)@.next(old(registry)@, event@, now_ms as int),
            if old(self)@.marks(old(registry)@, event@) {
                let id = old(self)@.board_id;
                &&& final(registry)@ == old(registry)@.insert(
                    id,
                    (Board { serial: final(registry)@[id].serial, ..old(registry)@[id] }),
                )
                &&& final(registry)@[id].serial@ == old(registry)@[id].serial@.marked()
            } else {
                final(registry)@ == old(registry)@
            },
            final(self)@.board_id == old(self)@.board_id,
            guard@ == final(self)@.owner(),
            final(self)@.leased(final(registry)@),
    {
        proof {
            events_keep_the_owner(self@, registry@, event@, now_ms as int);
        }
        match event {
            Event::Proceed => {
                if let Activity::Ready = self.activity {
                    self.proceed(registry, now_ms);
                }
            },
            Event::Replied { reply } => {
                self.take_reply(reply);
            },
            Event::Sent { result } => {
                if let Activity::Sending = self.activity {
                    match result {
                        Ok(()) => {
                            self.advance();
                        },
                        Err(error) => {
                            self.fail(error);
                        },
                    }
                }
            },
            Event::Rested => {
                match self.activity {
                    Activity::Pausing => {
                        self.advance();
                    },
                    Activity::Waiting { deadline_ms } => {
                        self.look(registry, deadline_ms, now_ms);
                    },
                    _ => {},
                }
            },
        }
    }

    /// Takes the current step, where nothing is being waited for.
    fn proceed(&mut self, registry: &mut BoardRegistry, now_ms: u64)
        requires
            old(self)@.activity is Ready,
            old(registry).wf(),
            old(self)@.marks(old(registry)@, EventView::Proceed) ==> old(registry)@[old(
                self,
            )@.board_id].serial@.generation < u64::MAX,
        ensures
            final(self).wf(),
            final(registry).wf(),
            final(self)@ == old(self)@.next(old(registry)@, EventView::Proceed, now_ms as int),
            if old(self)@.marks(old(registry)@, EventView::Proceed) {
                let id = old(self)@.board_id;
                &&& final(registry)@ == old(registry)@.insert(
                    id,
                    (Board { serial: final(registry)@[id].serial, ..old(registry)@[id] }),
                )
                &&& final(registry)@[id].serial@ == old(registry)@[id].serial@.marked()
            } else {
                final(registry)@ == old(registry)@
            },
    {
        if self.steps.len() == 0 {
            self.activity = Activity::Ended { failure: None };
            return;
        }
        let board = match registry.board(self.board_id.as_str()) {
            Ok(board) => board,
            Err(error) => {
                self.fail(error);
                return;
            },
        };
        assert(self@.steps.first() == self.steps@[0]@);
        match &self.steps[0] {
            Step::Mark => {
                let _ = registry.mark_generation(self.board_id.as_str());
                self.advance();
            },
            Step::Power { on: _, restore: _ } | Step::RequireOff { error: _ } => {
                self.begin_power(board, now_ms);
            },
            Step::Await { states: _, timeout_ms: _, fresh: _ }
            | Step::Require { state: _, error: _ }
            | Step::Transcript { marker: _ } => {
                self.begin_look(registry, now_ms);
            },
            _ => {
                self.begin_simple(board, now_ms);
            },
        }
    }

    /// Begins a step that needs a dialogue with the power controller.
    fn begin_power(&mut self, board: &Board, now_ms: u64)
        requires
            old(self)@.steps.len() > 0,
            old(self)@.steps.first() is Power || old(self)@.steps.first() is RequireOff,
        ensures
            final(self).wf(),
            final(self)@ == old(self)@.begun(*board, now_ms as int),
    {
        assert(self@.steps.first() == self.steps@[0]@);
        match &self.steps[0] {
            Step::Power { on, restore } => {
                let restore = *restore;
                match PowerTask::new(&board.profile.power, PowerGoal::Switch { on: *on }) {
                    Ok(task) => {
                        self.activity = Activity::Powering { task };
                    },
                    Err(error) => {
                        if restore {
                            self.fail(with_recovery(error, false));
                        } else {
                            self.fail(error);
                        }
                    },
                }
            },
            _ => {
                match PowerTask::new(&board.profile.power, PowerGoal::Query) {
                    Ok(task) => {
                        self.activity = Activity::Powering { task };
                    },
                    Err(error) => {
                        self.fail(error);
                    },
                }
            },
        }
    }

    /// Begins a step that looks at the console.
    fn begin_look(&mut self, registry: &BoardRegistry, now_ms: u64)
        requires
            registry.wf(),
            registry@.dom().contains(old(self)@.board_id),
            old(self)@.steps.len() > 0,
            old(self)@.steps.first() is Await || old(self)@.steps.first() is Require || old(
                self,
            )@.steps.first() is Transcript,
        ensures
            final(self).wf(),
            final(self)@ == old(self)@.begun(registry@[old(self)@.board_id], now_ms as int),
    {
        assert(self@.steps.first() == self.steps@[0]@);
        match &self.steps[0] {
            Step::Await { states: _, timeout_ms, fresh: _ } => {
                let deadline_ms: u128 = deadline(now_ms, *timeout_ms);
                self.look(registry, deadline_ms, now_ms);
            },
            Step::Require { state, error } => {
                let wanted = *state;
                let error = error.clone();
                match registry.observed_state(self.board_id.as_str()) {
                    Ok(shown) => {
                        if shown == wanted {
                            self.advance();
                        } else {
                            self.fail(error);
                        }
                    },
                    Err(missing) => {
                        self.fail(missing);
                    },
                }
            },
            _ => {
                match registry.output_since(self.board_id.as_str(), self.cursor) {
                    Ok(text) => {
                        self.transcribe(text);
                    },
                    Err(missing) => {
                        self.fail(missing);
                    },
                }
            },
        }
    }

    /// Begins any other step that leaves the registry as it is.
    fn begin_simple(&mut self, board: &Board, now_ms: u64)
        requires
            old(self)@.steps.len() > 0,
            match old(self)@.steps.first() {
                StepView::Cursor => true,
                StepView::Note { text } => true,
                StepView::Send { bytes } => true,
                StepView::Pause { ms } => true,
                StepView::StopIf { state } => true,
                StepView::Fail { error } => true,
                _ => false,
            },
        ensures
            final(self).wf(),
            final(self)@ == old(self)@.begun(*board, now_ms as int),
    {
        assert(self@.steps.first() == self.steps@[0]@);
        match &self.steps[0] {
            Step::Cursor => {
                self.cursor = board.serial.next_cursor();
                self.advance();
            },
            Step::Note { text } => {
                let text = text.clone();
                let ghost before = self.actions@;
                self.actions.push(text);
                assert(texts(self.actions@) == texts(before).push(text@));
                self.advance();
            },
            Step::Send { bytes: _ } => {
                self.activity = Activity::Sending;
            },
            Step::Pause { ms: _ } => {
                self.activity = Activity::Pausing;
            },
            Step::StopIf { state } => {
                if self.seen == *state {
                    self.activity = Activity::Ended { failure: None };
                } else {
                    self.advance();
                }
            },
            Step::Fail { error } => {
                let error = error.clone();
                self.fail(error);
            },
            _ => {},
        }
    }

    /// Takes the reply to the command of a power dialogue.
    fn take_reply(&mut self, reply: CommandReply)
        requires
            old(self).wf(),
        ensures
            final(self).wf(),
            forall|boards: Map<Seq<char>, Board>, now_ms: int|
                final(self)@ == #[trigger] old(self)@.next(
                    boards,
                    EventView::Replied { reply: reply@ },
                    now_ms,
                ),
    {
        let mut activity = Activity::Ready;
        std::mem::swap(&mut activity, &mut self.activity);
        match activity {
            Activity::Powering { task } => {
                let mut task = task;
                task.resume(reply);
                self.after_power(task);
            },
            Activity::Restoring { task, error } => {
                let mut task = task;
                task.resume(reply);
                match task.result() {
                    Some(result) => {
                        self.fail(with_recovery(error, result.is_ok()));
                    },
                    None => {
                        self.activity = Activity::Restoring { task, error };
                    },
                }
            },
            other => {
                self.activity = other;
            },
        }
    }

    /// Takes a power dialogue that has come further.
    fn after_power(&mut self, task: PowerTask)
        requires
            old(self)@.steps.len() > 0,
        ensures
            final(self)@ == old(self)@.powered(task@),
    {
        assert(self@.steps.first() == self.steps@[0]@);
        match task.result() {
            None => {
                self.activity = Activity::Powering { task };
            },
            Some(Ok(observation)) => {
                match &self.steps[0] {
                    Step::RequireOff { error } => {
                        if same(observation.state.as_str(), "on") {
                            let error = error.clone();
                            self.fail(error);
                        } else if same(observation.state.as_str(), "off") {
                            self.advance();
                        } else {
                            let error = Error::new(
                                ErrorCode::PowerStateUnverified,
                                error.phase,
                                "board is not known to be powered off".to_owned(),
                            );
                            self.fail(error);
                        }
                    },
                    _ => {
                        self.output = observation.raw;
                        self.advance();
                    },
                }
            },
            Some(Err(error)) => {
                match &self.steps[0] {
                    Step::Power { on: _, restore: true } => {
                        let mut task = task;
                        task.restart();
                        self.activity = Activity::Restoring { task, error };
                    },
                    _ => {
                        self.fail(error);
                    },
                }
            },
        }
    }

    /// Looks at the console for the states that the current step waits for.
    fn look(&mut self, registry: &BoardRegistry, deadline_ms: u128, now_ms: u64)
        requires
            registry.wf(),
            old(self)@.steps.len() > 0,
            old(self)@.steps.first() is Await,
        ensures
            final(self).wf(),
            final(self)@ == if registry@.dom().contains(old(self)@.board_id) {
                old(self)@.looked(
                    registry@[old(self)@.board_id],
                    deadline_ms as int,
                    now_ms as int,
                )
            } else {
                old(self)@.failed(board_not_found(old(self)@.board_id))
            },
    {
        assert(self@.steps.first() == self.steps@[0]@);
        let fresh = match &self.steps[0] {
            Step::Await { states: _, timeout_ms: _, fresh } => *fresh,
            _ => false,
        };
        let state = if fresh {
            registry.state_since(self.board_id.as_str(), self.cursor)
        } else {
            registry.observed_state(self.board_id.as_str())
        };
        match state {
            Ok(state) => {
                self.saw(state, deadline_ms, now_ms);
            },
            Err(error) => {
                self.fail(error);
            },
        }
    }

    /// Takes the state that the console shows while the current step waits for some.
    fn saw(&mut self, state: BoardState, deadline_ms: u128, now_ms: u64)
        requires
            old(self)@.steps.len() > 0,
            old(self)@.steps.first() is Await,
        ensures
            final(self).wf(),
            final(self)@ == old(self)@.judged(state, deadline_ms as int, now_ms as int),
    {
        assert(self@.steps.first() == self.steps@[0]@);
        let expired = now_ms as u128 >= deadline_ms;
        let result = match &self.steps[0] {
            Step::Await { states, timeout_ms: _, fresh } => judge(
                state,
                states.as_slice(),
                expired,
                *fresh,
            ),
            _ => Ok(None),
        };
        match result {
            Ok(Some(found)) => {
                let mut output = "observed ".to_owned();
                output.append(found.state_name().as_str());
                self.seen = found;
                self.output = output;
                self.advance();
            },
            Ok(None) => {
                self.activity = Activity::Waiting { deadline_ms };
            },
            Err(error) => {
                self.fail(error);
            },
        }
    }

    /// Takes the console output of a command, where the current step is to do so.
    fn transcribe(&mut self, text: String)
        requires
            old(self)@.steps.len() > 0,
            old(self)@.steps.first() is Transcript,
        ensures
            final(self).wf(),
            final(self)@ == old(self)@.transcribed(text@),
    {
        assert(self@.steps.first() == self.steps@[0]@);
        let result = match &self.steps[0] {
            Step::Transcript { marker: Some(marker) } => completion(
                text.as_str(),
                marker.as_str(),
            ),
            _ => Ok(()),
        };
        match result {
            Err(error) => {
                self.fail(error);
            },
            Ok(()) => {
                self.output = text;
                self.advance();
            },
        }
    }

    fn fail(&mut self, error: Error)
        ensures
            final(self)@ == old(self)@.failed(error@),
    {
        self.activity = Activity::Ended { failure: Some(error) };
    }

    fn advance(&mut self)
        requires
            old(self)@.steps.len() > 0,
        ensures
            final(self)@ == old(self)@.advanced(),
    {
        let ghost before = self.steps@;
        let _ = self.steps.pop_front();
        self.activity = Activity::Ready;
        assert(step_views(before).drop_first() == step_views(self.steps@));
    }
}

/// An operation that is over stays as it is, whatever happens.
pub proof fn ended_is_final(
    operation: OperationView,
    boards: Map<Seq<char>, Board>,
    event: EventView,
    now_ms: int,
)
    requires
        operation.activity is Ended,
    ensures
        operation.next(boards, event, now_ms) == operation,
        operation.action() is Finish,
{
}

/// An operation keeps its board and the owner of its lease, whatever happens.
pub proof fn events_keep_the_owner(
    operation: OperationView,
    boards: Map<Seq<char>, Board>,
    event: EventView,
    now_ms: int,
)
    ensures
        operation.next(boards, event, now_ms).board_id == operation.board_id,
        operation.next(boards, event, now_ms).owner() == operation.owner(),
{
}

/// Steps are taken in order, each once: an event leaves the steps as they are or takes the
/// current one away.
pub proof fn steps_are_taken_in_order(
    operation: OperationView,
    boards: Map<Seq<char>, Board>,
    event: EventView,
    now_ms: int,
)
    requires
        operation.coherent(),
    ensures
        operation.next(boards, event, now_ms).coherent(),
        operation.next(boards, event, now_ms).steps == operation.steps || (operation.steps.len() > 0
            && operation.next(boards, event, now_ms).steps == operation.steps.drop_first()),
{
}

/// An operation succeeds only when no step is left, or at a step that lets it stop early.
pub proof fn success_takes_every_step(
    operation: OperationView,
    boards: Map<Seq<char>, Board>,
    event: EventView,
    now_ms: int,
)
    requires
        operation.activity !is Ended,
        operation.next(boards, event, now_ms).activity == (ActivityView::Ended { failure: None }),
    ensures
        operation.steps.len() == 0 || operation.steps.first() is StopIf,
{
}

/// A wait has one deadline, its timeout from when it began. Before that it may go on; a look at
/// or after the deadline ends it.
pub proof fn waits_end_at_the_deadline(
    operation: OperationView,
    boards: Map<Seq<char>, Board>,
    event: EventView,
    now_ms: int,
)
    requires
        operation.coherent(),
    ensures
        operation.activity matches ActivityView::Waiting { deadline_ms } ==> {
            &&& event is Rested && now_ms >= deadline_ms ==> operation.next(boards, event, now_ms).activity !is Waiting
            &&& operation.next(boards, event, now_ms).activity matches ActivityView::Waiting {
                deadline_ms: later,
            } ==> later == deadline_ms
        },
        operation.activity is Ready ==> (operation.next(
            boards,
            event,
            now_ms,
        ).activity matches ActivityView::Waiting { deadline_ms } ==> (
        operation.steps.first() matches StepView::Await { states, timeout_ms, fresh }
            && deadline_ms == now_ms + timeout_ms)),
{
}

/// Nothing after a wait is done unless one of the states that it waits for was seen.
pub proof fn waits_gate_what_follows(
    operation: OperationView,
    boards: Map<Seq<char>, Board>,
    event: EventView,
    now_ms: int,
)
    requires
        operation.coherent(),
        operation.steps.len() > 0,
        operation.steps.first() is Await,
        operation.next(boards, event, now_ms).steps != operation.steps,
    ensures
        operation.steps.first()->states.contains(operation.next(boards, event, now_ms).seen),
        boards.dom().contains(operation.board_id),
        operation.next(boards, event, now_ms).seen == if operation.steps.first()->fresh {
            boards[operation.board_id].state_since(operation.cursor)
        } else {
            boards[operation.board_id].current_state()
        },
{
    assert(operation.activity is Ready || operation.activity is Waiting);
}

/// Nothing after a switch of power is done unless a query that followed the switch showed the
/// position asked for.
pub proof fn power_steps_are_verified(
    operation: OperationView,
    boards: Map<Seq<char>, Board>,
    event: EventView,
    now_ms: int,
)
    requires
        operation.coherent(),
        operation.steps.len() > 0,
        operation.steps.first() is Power,
        operation.next(boards, event, now_ms).steps != operation.steps,
    ensures
        operation.activity matches ActivityView::Powering { task } && event matches EventView::Replied {
            reply,
        } && task.next(reply).stage matches StageView::Ended { result: Ok(observation) }
            && observation.state == position(operation.steps.first()->on),
{
    assert(operation.steps != operation.steps.drop_first());
}

/// A pause ends only when its time has passed.
pub proof fn pauses_are_kept(
    operation: OperationView,
    boards: Map<Seq<char>, Board>,
    event: EventView,
    now_ms: int,
)
    requires
        operation.coherent(),
        operation.activity is Pausing,
        operation.next(boards, event, now_ms) != operation,
    ensures
        event is Rested,
        operation.steps.first() matches StepView::Pause { ms } && operation.action() == (
        ActionView::Rest { ms }),
{
}

/// Before step `j` of the operation, which switches power on and tries again where that fails,
/// stand only notes and pauses.
pub open spec fn pledged_at(operation: OperationView, j: int) -> bool {
    &&& operation.coherent()
    &&& operation.activity !is Ended
    &&& 0 <= j < operation.steps.len()
    &&& operation.steps[j] == (StepView::Power { on: true, restore: true })
    &&& forall|k: int| 0 <= k < j ==> harmless(#[trigger] operation.steps[k])
}

/// The operation is bound to switch power on.
pub open spec fn pledged(operation: OperationView) -> bool {
    exists|j: int| pledged_at(operation, j)
}

/// Once power is off with only notes and pauses before it is to be switched on again, the
/// operation goes on until power is verified to be on, or until a second attempt is over as well
/// and its error says whether that attempt restored power.
pub proof fn power_is_restored_or_reported(
    operation: OperationView,
    boards: Map<Seq<char>, Board>,
    event: EventView,
    now_ms: int,
)
    requires
        pledged(operation),
        boards.dom().contains(operation.board_id),
        task_for(
            boards[operation.board_id].profile.power,
            PowerGoal::Switch { on: true },
        ) is Ok,
    ensures
        ({
            let next = operation.next(boards, event, now_ms);
            ||| pledged(next)
            ||| operation.activity matches ActivityView::Powering { task }
                && event matches EventView::Replied { reply }
                && task.next(reply).stage matches StageView::Ended { result: Ok(observation) }
                && observation.state == position(true) && next == (OperationView {
                output: observation.raw,
                ..operation.advanced()
            })
            ||| operation.activity matches ActivityView::Restoring { task, error }
                && event matches EventView::Replied { reply }
                && task.next(reply).stage matches StageView::Ended { result } && next
                == operation.failed(after_recovery(error, result is Ok))
        }),
{
    let next = operation.next(boards, event, now_ms);
    let j = choose|j: int| pledged_at(operation, j);
    if j > 0 {
        assert(harmless(operation.steps[0]));
        if next.steps == operation.steps {
            assert(pledged_at(next, j));
        } else {
            assert forall|k: int| 0 <= k < j - 1 implies harmless(#[trigger] next.steps[k]) by {
                assert(next.steps[k] == operation.steps[k + 1]);
            }
            assert(pledged_at(next, j - 1));
        }
    } else {
        if next.steps == operation.steps && next.activity !is Ended {
            assert(pledged_at(next, 0));
        }
    }
}

/// Where step `i` of a program switches power off and a later one switches it on again, an
/// operation that has taken step `i` is bound to switch power on.
pub proof fn switching_off_binds(operation: OperationView, steps: Seq<StepView>, i: int)
    requires
        operation.activity is Ready,
        0 <= i < steps.len(),
        turned_on_after(steps, i),
        operation.steps == steps.skip(i + 1),
    ensures
        pledged(operation),
{
    let j = choose|j: int|
        i < j < steps.len() && #[trigger] steps[j] == (StepView::Power { on: true, restore: true })
            && forall|k: int| i < k < j ==> harmless(#[trigger] steps[k]);
    assert forall|k: int| 0 <= k < j - i - 1 implies harmless(#[trigger] operation.steps[k]) by {
        assert(operation.steps[k] == steps[k + i + 1]);
    }
    assert(pledged_at(operation, j - i - 1));
}

/// How far an operation is from its end, apart from how long it waits.
pub open spec fn distance(operation: OperationView) -> nat {
    operation.steps.len() * 13 + match operation.activity {
        ActivityView::Ready => 12,
        ActivityView::Powering { task } => 6 + task.left(),
        ActivityView::Restoring { task, error } => task.left(),
        ActivityView::Sending => 1,
        ActivityView::Pausing => 1,
        ActivityView::Waiting { deadline_ms } => 1,
        ActivityView::Ended { failure } => 0,
    }
}

/// The event is one that comes of the action that the operation asks for.
pub open spec fn answers(operation: OperationView, event: EventView) -> bool {
    match operation.action() {
        ActionView::Proceed => event is Proceed,
        ActionView::Run { command } => event is Replied,
        ActionView::Send { bytes } => event is Sent,
        ActionView::Rest { ms } => event is Rested,
        ActionView::Finish => false,
        ActionView::Lease { deadline_ms } => false,
    }
}

/// An operation comes to an end: every answer to what it asks for brings it nearer, unless it
/// keeps waiting for a state, which it does only before the deadline of the wait.
pub proof fn operations_come_to_an_end(
    operation: OperationView,
    boards: Map<Seq<char>, Board>,
    event: EventView,
    now_ms: int,
)
    requires
        operation.coherent(),
        answers(operation, event),
    ensures
        ({
            let next = operation.next(boards, event, now_ms);
            ||| next.activity is Ended
            ||| distance(next) < distance(operation)
            ||| operation.activity matches ActivityView::Waiting { deadline_ms } && next == operation
                && now_ms < deadline_ms
        }),
{
    match (operation.activity, event) {
        (ActivityView::Powering { task }, EventView::Replied { reply }) => {
            dialogues_are_bounded(task, reply);
        },
        (ActivityView::Restoring { task, error }, EventView::Replied { reply }) => {
            dialogues_are_bounded(task, reply);
        },
        _ => {},
    }
}

/// One event of a run: when it came, and what the boards were.
pub struct Moment {
    pub boards: Map<Seq<char>, Board>,
    pub event: EventView,
    pub now_ms: int,
}

/// The operation after a run of events.
pub open spec fn run(operation: OperationView, moments: Seq<Moment>) -> OperationView
    decreases moments.len(),
{
    if moments.len() == 0 {
        operation
    } else {
        let last = moments.last();
        run(operation, moments.drop_last()).next(last.boards, last.event, last.now_ms)
    }
}

/// Event `i` of the run completed step `k` of the operation.
pub open spec fn completed_at(
    operation: OperationView,
    moments: Seq<Moment>,
    k: int,
    i: int,
) -> bool {
    &&& 0 <= i < moments.len()
    &&& run(operation, moments.take(i)).steps == operation.steps.skip(k)
    &&& run(operation, moments.take(i + 1)).steps == operation.steps.skip(k + 1)
}

/// The run completed step `k` of the operation.
pub open spec fn completed(operation: OperationView, moments: Seq<Moment>, k: int) -> bool {
    exists|i: int| completed_at(operation, moments, k, i)
}

/// The run has completed the first `m` steps, and no others.
spec fn progress(operation: OperationView, moments: Seq<Moment>, m: int) -> bool {
    &&& 0 <= m <= operation.steps.len()
    &&& run(operation, moments).coherent()
    &&& run(operation, moments).steps == operation.steps.skip(m)
    &&& forall|k: int|
        0 <= k < m ==> #[trigger] completed(operation, moments, k)
}

/// What a run completed, a longer run completed too.
proof fn completed_stays(operation: OperationView, moments: Seq<Moment>, k: int)
    requires
        moments.len() > 0,
        completed(operation, moments.drop_last(), k),
    ensures
        completed(operation, moments, k),
{
    let before = moments.drop_last();
    let i = choose|i: int| completed_at(operation, before, k, i);
    assert(before.take(i) == moments.take(i));
    assert(before.take(i + 1) == moments.take(i + 1));
    assert(completed_at(operation, moments, k, i));
}

/// The last event of a run leaves the steps as they are or takes the current one away.
proof fn last_event_takes_one_step(operation: OperationView, moments: Seq<Moment>)
    requires
        moments.len() > 0,
        run(operation, moments.drop_last()).coherent(),
    ensures
        ({
            let before = run(operation, moments.drop_last());
            let after = run(operation, moments);
            &&& after.coherent()
            &&& after.steps == before.steps || (before.steps.len() > 0 && after.steps
                == before.steps.drop_first())
        }),
{
    let last = moments.last();
    steps_are_taken_in_order(
        run(operation, moments.drop_last()),
        last.boards,
        last.event,
        last.now_ms,
    );
}

/// Where the last event takes step `m` away, the run completed that step.
proof fn last_event_completes(operation: OperationView, moments: Seq<Moment>, m: int)
    requires
        moments.len() > 0,
        run(operation, moments.drop_last()).steps == operation.steps.skip(m),
        run(operation, moments).steps == operation.steps.skip(m + 1),
    ensures
        completed(operation, moments, m),
{
    let i = moments.len() - 1;
    assert(moments.take(i) == moments.drop_last());
    assert(moments.take(i + 1) == moments);
    assert(completed_at(operation, moments, m, i));
}

proof fn runs_make_progress(operation: OperationView, moments: Seq<Moment>) -> (m: int)
    requires
        operation.coherent(),
    ensures
        progress(operation, moments, m),
    decreases moments.len(),
{
    if moments.len() == 0 {
        assert(operation.steps.skip(0) == operation.steps);
        0
    } else {
        let m = runs_make_progress(operation, moments.drop_last());
        progress_goes_on(operation, moments, m)
    }
}

proof fn progress_goes_on(operation: OperationView, moments: Seq<Moment>, m: int) -> (n: int)
    requires
        moments.len() > 0,
        progress(operation, moments.drop_last(), m),
    ensures
        progress(operation, moments, n),
{
    let before = run(operation, moments.drop_last());
    last_event_takes_one_step(operation, moments);
    assert forall|k: int| 0 <= k < m implies #[trigger] completed(operation, moments, k) by {
        completed_stays(operation, moments, k);
    }
    if run(operation, moments).steps == before.steps {
        m
    } else {
        assert(operation.steps.skip(m).drop_first() == operation.steps.skip(m + 1));
        last_event_completes(operation, moments, m);
        m + 1
    }
}

/// Where an operation that succeeds ends: after its last step, or at a step that lets it stop
/// early.
proof fn success_ends_at_a_stop(operation: OperationView, moments: Seq<Moment>)
    requires
        operation.coherent(),
        operation.activity !is Ended,
        run(operation, moments).activity == (ActivityView::Ended { failure: None }),
    ensures
        ({
            let end = run(operation, moments);
            end.steps.len() == 0 || (end.steps.first() matches StepView::StopIf { state }
                && end.seen == state)
        }),
    decreases moments.len(),
{
    if moments.len() > 0 {
        let before = moments.drop_last();
        let last = moments.last();
        let state = run(operation, before);
        runs_make_progress(operation, before);
        if state.activity is Ended {
            ended_is_final(state, last.boards, last.event, last.now_ms);
            success_ends_at_a_stop(operation, before);
        } else {
            success_takes_every_step(state, last.boards, last.event, last.now_ms);
        }
    }
}

/// The run ended before step `m`, which is no step at all or one that lets the operation stop
/// where the last wait ended with its state, and it completed every step before that.
pub open spec fn stopped_at(operation: OperationView, moments: Seq<Moment>, m: int) -> bool {
    &&& 0 <= m <= operation.steps.len()
    &&& m < operation.steps.len() ==> (operation.steps[m] matches StepView::StopIf { state } && run(
        operation,
        moments,
    ).seen == state)
    &&& forall|k: int| 0 <= k < m ==> #[trigger] completed(operation, moments, k)
}

/// An operation that succeeds has completed every one of its steps, in order, up to where it
/// stopped: at its end, or at an early stop whose state was seen. It has completed at least the
/// steps before its first early stop.
pub proof fn successful_runs_complete_every_step(operation: OperationView, moments: Seq<Moment>)
    requires
        operation.coherent(),
        operation.activity !is Ended,
        run(operation, moments).activity == (ActivityView::Ended { failure: None }),
    ensures
        exists|m: int| stopped_at(operation, moments, m),
        forall|k: int|
            0 <= k < operation.steps.len() && no_stop_before(operation.steps, k + 1)
                ==> #[trigger] completed(operation, moments, k),
{
    let m = runs_make_progress(operation, moments);
    success_ends_at_a_stop(operation, moments);
    if m < operation.steps.len() {
        assert(operation.steps.skip(m).first() == operation.steps[m]);
    }
    assert(stopped_at(operation, moments, m));
}

/// None of the first `n` steps lets the operation stop early.
pub open spec fn no_stop_before(steps: Seq<StepView>, n: int) -> bool {
    forall|j: int| 0 <= j < n && j < steps.len() ==> #[trigger] steps[j] !is StopIf
}

/// The event ends a switch of power: a query after the switch showed the position `on`.
pub open spec fn switch_verified(operation: OperationView, event: EventView, on: bool) -> bool {
    operation.activity matches ActivityView::Powering { task } && event matches EventView::Replied {
        reply,
    } && task.next(reply).stage matches StageView::Ended { result: Ok(observation) }
        && observation.state == position(on)
}

/// Every switch of power that a run completed was verified by a query after it, whether the
/// operation went on to succeed or not.
pub proof fn completed_switches_are_verified(
    operation: OperationView,
    moments: Seq<Moment>,
    k: int,
    i: int,
)
    requires
        operation.coherent(),
        0 <= k < operation.steps.len(),
        operation.steps[k] is Power,
        completed_at(operation, moments, k, i),
    ensures
        switch_verified(
            run(operation, moments.take(i)),
            moments[i].event,
            operation.steps[k]->on,
        ),
{
    let state = run(operation, moments.take(i));
    runs_make_progress(operation, moments.take(i));
    assert(moments.take(i + 1).drop_last() == moments.take(i));
    assert(moments.take(i + 1).last() == moments[i]);
    assert(operation.steps.skip(k).first() == operation.steps[k]);
    assert(operation.steps.skip(k).len() != operation.steps.skip(k + 1).len());
    power_steps_are_verified(state, moments[i].boards, moments[i].event, moments[i].now_ms);
}

/// Every switch of power before the place where an operation that succeeds stopped was verified
/// by a query after it.
pub proof fn successful_runs_verify_power(
    operation: OperationView,
    moments: Seq<Moment>,
    m: int,
    k: int,
)
    requires
        operation.coherent(),
        operation.activity !is Ended,
        run(operation, moments).activity == (ActivityView::Ended { failure: None }),
        stopped_at(operation, moments, m),
        0 <= k < m,
        operation.steps[k] is Power,
    ensures
        exists|i: int|
            completed_at(operation, moments, k, i) && switch_verified(
                #[trigger] run(operation, moments.take(i)),
                moments[i].event,
                operation.steps[k]->on,
            ),
{
    assert(completed(operation, moments, k));
    let i = choose|i: int| completed_at(operation, moments, k, i);
    completed_switches_are_verified(operation, moments, k, i);
}

/// What the notes among the steps say.
pub open spec fn notes(steps: Seq<StepView>) -> Seq<Seq<char>>
    decreases steps.len(),
{
    if steps.len() == 0 {
        Seq::empty()
    } else {
        match steps.last() {
            StepView::Note { text } => notes(steps.drop_last()).push(text),
            _ => notes(steps.drop_last()),
        }
    }
}

/// The run has taken `m` steps, and has noted what the notes among them say.
pub open spec fn notes_kept(operation: OperationView, moments: Seq<Moment>, m: int) -> bool {
    &&& 0 <= m <= operation.steps.len()
    &&& run(operation, moments).steps == operation.steps.skip(m)
    &&& run(operation, moments).actions == operation.actions + notes(operation.steps.take(m))
}

/// The actions that an operation reports are the notes among the steps that it has taken, in
/// order, and nothing else.
pub proof fn reports_name_the_steps_taken(operation: OperationView, moments: Seq<Moment>)
    requires
        operation.coherent(),
    ensures
        exists|m: int| notes_kept(operation, moments, m),
    decreases moments.len(),
{
    if moments.len() == 0 {
        assert(operation.steps.skip(0) == operation.steps);
        assert(operation.steps.take(0) == Seq::<StepView>::empty());
        assert(operation.actions + notes(Seq::<StepView>::empty()) == operation.actions);
        assert(notes_kept(operation, moments, 0));
    } else {
        let before = moments.drop_last();
        reports_name_the_steps_taken(operation, before);
        let m = choose|m: int| notes_kept(operation, before, m);
        runs_make_progress(operation, before);
        last_event_takes_one_step(operation, moments);
        last_event_notes(operation, moments);
        if run(operation, moments).steps == run(operation, before).steps {
            assert(notes_kept(operation, moments, m));
        } else {
            let said = notes(operation.steps.take(m));
            assert(operation.steps.skip(m).first() == operation.steps[m]);
            assert(operation.steps.take(m + 1).drop_last() == operation.steps.take(m));
            assert(operation.steps.take(m + 1).last() == operation.steps[m]);
            assert(operation.steps.skip(m).drop_first() == operation.steps.skip(m + 1));
            if let StepView::Note { text } = operation.steps[m] {
                assert((operation.actions + said).push(text) == operation.actions + said.push(
                    text,
                ));
            }
            assert(notes_kept(operation, moments, m + 1));
        }
    }
}

/// The last event of a run notes something exactly where it takes a note away from the steps.
proof fn last_event_notes(operation: OperationView, moments: Seq<Moment>)
    requires
        moments.len() > 0,
        run(operation, moments.drop_last()).coherent(),
    ensures
        ({
            let before = run(operation, moments.drop_last());
            let after = run(operation, moments);
            &&& after.steps == before.steps ==> after.actions == before.actions
            &&& after.steps != before.steps ==> after.actions == match before.steps.first() {
                StepView::Note { text } => before.actions.push(text),
                _ => before.actions,
            }
        }),
{
    let before = run(operation, moments.drop_last());
    assert(before.steps.len() > 0 ==> before.steps.drop_first().len() != before.steps.len());
}

/// Where nothing came since the cursor, the console shows no state, whatever it showed before.
pub proof fn old_output_shows_no_state(board: Board)
    requires
        board.serial@.wf(),
    ensures
        board.state_since(board.serial@.next_cursor) == BoardState::Unknown,
{
    let ring = board.serial@;
    snapshot_is_a_window(ring, ring.next_cursor, WINDOW as int);
    cursor_ends_the_contents(ring);
    assert(flatten(ring.snapshot_from(ring.next_cursor, WINDOW as int).chunks) == Seq::<
        u8,
    >::empty());
    silence_is_unknown(board.profile.patterns);
}

/// What came since the cursor alone decides the state shown since the cursor.
pub proof fn new_output_decides_the_state(
    before: Board,
    after: Board,
    timestamp: SystemTime,
    input: Seq<u8>,
)
    requires
        before.serial@.wf(),
        before.serial@.next_cursor + input.len() <= u64::MAX,
        input.len() <= before.serial@.capacity,
        input.len() <= WINDOW,
        after.profile == before.profile,
        after.serial@ == before.serial@.appended(timestamp, input),
    ensures
        after.state_since(before.serial@.next_cursor) == classify(
            before.profile.patterns,
            decoded(input),
        ),
{
    appended_bytes_read_back(before.serial@, timestamp, input, WINDOW as int);
}

/// A board begins in an unknown state, until its console shows something.
pub proof fn boards_begin_unknown(board: Board, profile: BoardProfile, ring_bytes: int)
    requires
        untouched(board, profile, ring_bytes),
    ensures
        board.current_state() == BoardState::Unknown,
{
    let ring = board.serial@;
    assert(of_generation(ring.chunks, 0) == Seq::<ChunkView>::empty());
    assert(drop_front(Seq::<ChunkView>::empty(), 0) == Seq::<ChunkView>::empty());
    assert(total(Seq::<ChunkView>::empty()) == 0);
    assert(flatten(Seq::<ChunkView>::empty()) == Seq::<u8>::empty());
    silence_is_unknown(board.profile.patterns);
}

/// After a generation boundary the console shows no state until more comes, whatever it showed
/// before.
pub proof fn boundary_forgets_the_state(before: Board, after: Board)
    requires
        before.serial@.wf(),
        after.profile == before.profile,
        after.serial@ == before.serial@.marked(),
    ensures
        after.current_state() == BoardState::Unknown,
{
    boundary_hides_the_past(before.serial@, WINDOW as int);
    silence_is_unknown(before.profile.patterns);
}

} // verus!
