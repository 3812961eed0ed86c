//! What each step of an operation does to it, and what a run comes to.

use vstd::prelude::*;

use crate::config::BoardProfile;
use crate::error::{ErrorCode, ErrorView};
use crate::operations::{
    completion_marker, linux_command_steps, power_on_linux_steps, report,
};
use crate::plan_laws::{every_wait_lasts, waits_last_as_long_as_asked};
use crate::power::{task_for, PowerGoal, StageView, TaskView};
use crate::procedure::{
    ended_is_final, notes_kept, planned, reports_name_the_steps_taken, run,
    steps_are_taken_in_order, success_takes_every_step, ActionView, ActivityView, EventView,
    Moment, OperationView, StepView,
};
use crate::registry::Board;
use crate::state::BoardState;
use crate::text::without;
use crate::text_laws::{containing_is_being_around, within};

verus! {

/// The operation went on to its next step, and is otherwise as it was but for the cursor, the
/// state seen, the output and the notes.
pub open spec fn went_on(before: OperationView, after: OperationView) -> bool {
    &&& before.steps.len() > 0
    &&& after.steps == before.steps.subrange(1, before.steps.len() as int)
    &&& after.activity == ActivityView::Ready
    &&& after.operation_id == before.operation_id
    &&& after.board_id == before.board_id
    &&& after.name == before.name
    &&& after.expected == before.expected
    &&& after.policy == before.policy
}

/// The operation went on to its next step, and nothing else of it changed.
pub open spec fn just_went_on(before: OperationView, after: OperationView) -> bool {
    &&& went_on(before, after)
    &&& after.cursor == before.cursor
    &&& after.seen == before.seen
    &&& after.output == before.output
    &&& after.actions == before.actions
}

/// The operation ended with the error.
pub open spec fn ended_with(after: OperationView, error: ErrorView) -> bool {
    after.activity == (ActivityView::Ended { failure: Some(error) })
}

/// The operation is at a step that it may begin on its board.
pub open spec fn at_step(
    operation: OperationView,
    boards: Map<Seq<char>, Board>,
    step: StepView,
) -> bool {
    &&& operation.activity is Ready
    &&& operation.steps.len() > 0
    &&& operation.steps[0] == step
    &&& boards.dom().contains(operation.board_id)
}

/// The event makes a waiting operation look at the console: its first look, or a later one.
pub open spec fn looks(operation: OperationView, event: EventView) -> bool {
    ||| operation.activity is Ready && event is Proceed
    ||| operation.activity is Waiting && event is Rested
}

/// The state that a look finds, for a wait that accepts only new output or one that does not.
pub open spec fn look(operation: OperationView, board: Board, fresh: bool) -> BoardState {
    if fresh {
        board.state_since(operation.cursor)
    } else {
        board.current_state()
    }
}

/// A look that finds one of the awaited states ends the wait, whatever the time: the operation
/// goes on, having seen that state, and says so.
pub proof fn awaited_states_end_the_wait(
    operation: OperationView,
    boards: Map<Seq<char>, Board>,
    event: EventView,
    now_ms: int,
    states: Seq<BoardState>,
    timeout_ms: int,
    fresh: bool,
)
    requires
        operation.steps.len() > 0,
        operation.steps[0] == (StepView::Await { states, timeout_ms, fresh }),
        boards.dom().contains(operation.board_id),
        looks(operation, event),
        states.contains(look(operation, boards[operation.board_id], fresh)),
    ensures
        ({
            let next = operation.next(boards, event, now_ms);
            let state = look(operation, boards[operation.board_id], fresh);
            &&& went_on(operation, next)
            &&& next.seen == state
            &&& next.output == "observed "@ + state.name()
            &&& next.cursor == operation.cursor
            &&& next.actions == operation.actions
        }),
{
}

/// A look that finds none of the awaited states lets the wait go on before its deadline, which
/// is the timeout from when the wait began, and ends it with a timeout from then on.
pub proof fn waits_time_out_at_their_deadline(
    operation: OperationView,
    boards: Map<Seq<char>, Board>,
    event: EventView,
    now_ms: int,
    states: Seq<BoardState>,
    timeout_ms: int,
    fresh: bool,
)
    requires
        operation.steps.len() > 0,
        operation.steps[0] == (StepView::Await { states, timeout_ms, fresh }),
        boards.dom().contains(operation.board_id),
        looks(operation, event),
        !states.contains(look(operation, boards[operation.board_id], fresh)),
    ensures
        ({
            let next = operation.next(boards, event, now_ms);
            let deadline = match operation.activity {
                ActivityView::Waiting { deadline_ms } => deadline_ms,
                _ => now_ms + timeout_ms,
            };
            &&& next.steps == operation.steps
            &&& now_ms < deadline ==> next == (OperationView {
                activity: ActivityView::Waiting { deadline_ms: deadline },
                ..operation
            })
            &&& now_ms >= deadline ==> (next.activity matches ActivityView::Ended { failure }
                && failure matches Some(error) && error.code == ErrorCode::StateTimeout)
        }),
{
}

/// The run of looks up to `i`: the first begins the wait, and each of the others is a rest later.
pub open spec fn looks_up_to(operation: OperationView, moments: Seq<Moment>, i: int) -> bool {
    &&& 0 <= i < moments.len()
    &&& moments[0].event is Proceed
    &&& forall|k: int| 0 < k <= i ==> (#[trigger] moments[k]).event is Rested
    &&& forall|k: int|
        0 <= k <= i ==> (#[trigger] moments[k]).boards.dom().contains(operation.board_id)
}

/// Look `k` finds one of the states.
pub open spec fn finds(
    operation: OperationView,
    moments: Seq<Moment>,
    k: int,
    states: Seq<BoardState>,
    fresh: bool,
) -> bool {
    states.contains(look(operation, moments[k].boards[operation.board_id], fresh))
}

proof fn wait_goes_on(
    operation: OperationView,
    moments: Seq<Moment>,
    i: int,
    states: Seq<BoardState>,
    timeout_ms: int,
    fresh: bool,
)
    requires
        operation.activity is Ready,
        operation.steps.len() > 0,
        operation.steps[0] == (StepView::Await { states, timeout_ms, fresh }),
        looks_up_to(operation, moments, i),
        forall|k: int|
            0 <= k <= i ==> !#[trigger] finds(operation, moments, k, states, fresh)
                && moments[k].now_ms < moments[0].now_ms + timeout_ms,
    ensures
        run(operation, moments.take(i + 1)) == (OperationView {
            activity: ActivityView::Waiting { deadline_ms: moments[0].now_ms + timeout_ms },
            ..operation
        }),
    decreases i,
{
    let all = moments.take(i + 1);
    assert(all.drop_last() == moments.take(i));
    assert(all.last() == moments[i]);
    assert(!finds(operation, moments, i, states, fresh));
    if i == 0 {
        assert(moments.take(0) == Seq::<Moment>::empty());
        assert(run(operation, moments.take(0)) == operation);
    } else {
        wait_goes_on(operation, moments, i - 1, states, timeout_ms, fresh);
    }
}

/// A wait whose console shows one of the awaited states in some look, all looks before that one
/// being before the deadline, ends there with that state, and not in a timeout.
pub proof fn states_shown_in_time_are_seen(
    operation: OperationView,
    moments: Seq<Moment>,
    i: int,
    states: Seq<BoardState>,
    timeout_ms: int,
    fresh: bool,
)
    requires
        operation.activity is Ready,
        operation.steps.len() > 0,
        operation.steps[0] == (StepView::Await { states, timeout_ms, fresh }),
        looks_up_to(operation, moments, i),
        finds(operation, moments, i, states, fresh),
        forall|k: int|
            0 <= k < i ==> !#[trigger] finds(operation, moments, k, states, fresh)
                && moments[k].now_ms < moments[0].now_ms + timeout_ms,
    ensures
        went_on(operation, run(operation, moments.take(i + 1))),
        run(operation, moments.take(i + 1)).seen == look(
            operation,
            moments[i].boards[operation.board_id],
            fresh,
        ),
{
    let all = moments.take(i + 1);
    assert(all.drop_last() == moments.take(i));
    assert(all.last() == moments[i]);
    if i == 0 {
        assert(moments.take(0) == Seq::<Moment>::empty());
        assert(run(operation, moments.take(0)) == operation);
    } else {
        wait_goes_on(operation, moments, i - 1, states, timeout_ms, fresh);
    }
}

/// The first look at which the states show, among the looks up to `i`.
proof fn first_find(
    operation: OperationView,
    moments: Seq<Moment>,
    i: int,
    states: Seq<BoardState>,
    fresh: bool,
) -> (j: int)
    requires
        0 <= i,
        finds(operation, moments, i, states, fresh),
    ensures
        0 <= j <= i,
        finds(operation, moments, j, states, fresh),
        forall|k: int| 0 <= k < j ==> !#[trigger] finds(operation, moments, k, states, fresh),
    decreases i,
{
    if exists|k: int| 0 <= k < i && #[trigger] finds(operation, moments, k, states, fresh) {
        let k = choose|k: int|
            0 <= k < i && #[trigger] finds(operation, moments, k, states, fresh);
        first_find(operation, moments, k, states, fresh)
    } else {
        i
    }
}

/// A run of an operation all of whose waits last so long, that comes to a wait, waits exactly so
/// long: where a look before then shows one of the awaited states, the wait has ended with a
/// state by that look, and the operation has gone on.
pub proof fn waits_of_a_run_last_as_asked(
    plan: OperationView,
    timeout_ms: int,
    before: Seq<Moment>,
    moments: Seq<Moment>,
    i: int,
)
    requires
        plan.coherent(),
        every_wait_lasts(plan.steps, timeout_ms),
        run(plan, before).activity is Ready,
        run(plan, before).steps.len() > 0,
        run(plan, before).steps[0] matches StepView::Await { states, timeout_ms: limit, fresh }
            && looks_up_to(run(plan, before), moments, i) && finds(
            run(plan, before),
            moments,
            i,
            states,
            fresh,
        ),
        forall|k: int|
            0 <= k <= i ==> (#[trigger] moments[k]).now_ms < moments[0].now_ms + timeout_ms,
    ensures
        exists|j: int|
            0 <= j <= i && went_on(
                run(plan, before),
                #[trigger] run(run(plan, before), moments.take(j + 1)),
            ),
{
    let operation = run(plan, before);
    reports_name_the_steps_taken(plan, before);
    let m = choose|m: int| notes_kept(plan, before, m);
    assert(operation.steps[0] == plan.steps[m]);
    match operation.steps[0] {
        StepView::Await { states, timeout_ms: limit, fresh } => {
            assert(limit == timeout_ms);
            let j = first_find(operation, moments, i, states, fresh);
            assert(looks_up_to(operation, moments, j));
            states_shown_in_time_are_seen(operation, moments, j, states, timeout_ms, fresh);
            assert(went_on(operation, run(operation, moments.take(j + 1))));
        },
        _ => {},
    }
}

/// A run of `power_on_linux` that comes to a wait waits exactly the timeout asked for, for the
/// boot and for the login: where a look before then shows one of the awaited states, the wait
/// has ended with a state by that look, and the operation has gone on.
pub proof fn boots_are_seen_within_the_timeout(
    plan: OperationView,
    profile: BoardProfile,
    login: bool,
    timeout_ms: int,
    before: Seq<Moment>,
    moments: Seq<Moment>,
    i: int,
)
    requires
        plan.activity is Ready,
        plan.steps == power_on_linux_steps(profile, login, timeout_ms),
        run(plan, before).activity is Ready,
        run(plan, before).steps.len() > 0,
        run(plan, before).steps[0] matches StepView::Await { states, timeout_ms: limit, fresh }
            && looks_up_to(run(plan, before), moments, i) && finds(
            run(plan, before),
            moments,
            i,
            states,
            fresh,
        ),
        forall|k: int|
            0 <= k <= i ==> (#[trigger] moments[k]).now_ms < moments[0].now_ms + timeout_ms,
    ensures
        exists|j: int|
            0 <= j <= i && went_on(
                run(plan, before),
                #[trigger] run(run(plan, before), moments.take(j + 1)),
            ),
{
    waits_last_as_long_as_asked(
        profile,
        login,
        timeout_ms,
        Seq::empty(),
        Seq::empty(),
        Seq::empty(),
        false,
        Seq::empty(),
        Seq::empty(),
    );
    waits_of_a_run_last_as_asked(plan, timeout_ms, before, moments, i);
}

/// A step that takes a transcript with a marker lets the operation go on only where the output
/// shows that marker followed by `:0`, and does so there; the output is then the operation's.
/// Where the marker shows otherwise the exit status was another one; where it does not show, the
/// command did not end.
pub proof fn transcripts_need_their_marker(
    operation: OperationView,
    boards: Map<Seq<char>, Board>,
    now_ms: int,
    marker: Seq<char>,
)
    requires
        at_step(operation, boards, StepView::Transcript { marker: Some(marker) }),
    ensures
        ({
            let text = boards[operation.board_id].output_since(operation.cursor);
            let next = operation.next(boards, EventView::Proceed, now_ms);
            &&& within(text, marker + ":0"@) <==> next.steps != operation.steps
            &&& within(text, marker + ":0"@) ==> went_on(operation, next) && next.output == text
                && next.cursor == operation.cursor && next.seen == operation.seen && next.actions
                == operation.actions
            &&& !within(text, marker + ":0"@) ==> (
            next.activity matches ActivityView::Ended { failure } && failure matches Some(error)
                && error.code == if within(text, marker) {
                ErrorCode::CommandExitNonzero
            } else {
                ErrorCode::CommandTimeout
            })
        }),
{
    let text = boards[operation.board_id].output_since(operation.cursor);
    containing_is_being_around(text, marker + ":0"@);
    containing_is_being_around(text, marker);
    assert(operation.steps.drop_first().len() != operation.steps.len());
}

/// A step that takes a transcript without a marker takes the output as it is.
pub proof fn plain_transcripts_are_taken(
    operation: OperationView,
    boards: Map<Seq<char>, Board>,
    now_ms: int,
)
    requires
        at_step(operation, boards, StepView::Transcript { marker: None }),
    ensures
        ({
            let next = operation.next(boards, EventView::Proceed, now_ms);
            &&& went_on(operation, next)
            &&& next.output == boards[operation.board_id].output_since(operation.cursor)
        }),
{
}

/// The steps end with a transcript that needs the marker, and none of them lets the operation
/// stop early.
pub open spec fn ends_with_marker(steps: Seq<StepView>, marker: Seq<char>) -> bool {
    &&& steps.len() > 0
    &&& steps.last() == (StepView::Transcript { marker: Some(marker) })
    &&& forall|i: int| 0 <= i < steps.len() ==> #[trigger] steps[i] !is StopIf
}

proof fn marker_runs(operation: OperationView, moments: Seq<Moment>, marker: Seq<char>)
    requires
        operation.coherent(),
        operation.activity is Ready,
        ends_with_marker(operation.steps, marker),
    ensures
        ({
            let end = run(operation, moments);
            &&& end.coherent()
            &&& exists|m: int|
                0 <= m <= operation.steps.len() && end.steps == #[trigger] operation.steps.skip(m)
            &&& end.activity == (ActivityView::Ended { failure: None }) ==> end.steps.len() == 0
            &&& end.steps.len() == 0 ==> within(end.output, marker + ":0"@)
        }),
    decreases moments.len(),
{
    if moments.len() == 0 {
        assert(operation.steps == operation.steps.skip(0));
    } else {
        let before = run(operation, moments.drop_last());
        let last = moments.last();
        let end = run(operation, moments);
        marker_runs(operation, moments.drop_last(), marker);
        let m = choose|m: int|
            0 <= m <= operation.steps.len() && before.steps == #[trigger] operation.steps.skip(m);
        steps_are_taken_in_order(before, last.boards, last.event, last.now_ms);
        if before.steps.len() > 0 {
            assert(before.steps[0] == operation.steps[m]);
            assert(before.steps.drop_first() == operation.steps.skip(m + 1));
            assert(before.steps.drop_first().len() != before.steps.len());
            if before.steps.len() == 1 {
                assert(before.steps[0] == operation.steps.last());
                if end.steps.len() == 0 {
                    assert(at_step(
                        before,
                        last.boards,
                        StepView::Transcript { marker: Some(marker) },
                    ));
                    transcripts_need_their_marker(before, last.boards, last.now_ms, marker);
                }
            }
        }
        if end.activity == (ActivityView::Ended { failure: None }) {
            if before.activity is Ended {
                ended_is_final(before, last.boards, last.event, last.now_ms);
            } else {
                success_takes_every_step(before, last.boards, last.event, last.now_ms);
            }
        }
    }
}

/// A run that ends with a transcript and succeeds has an output that shows the marker followed
/// by `:0`.
pub proof fn successful_transcripts_show_the_marker(
    operation: OperationView,
    moments: Seq<Moment>,
    marker: Seq<char>,
)
    requires
        operation.coherent(),
        operation.activity is Ready,
        ends_with_marker(operation.steps, marker),
        run(operation, moments).activity == (ActivityView::Ended { failure: None }),
    ensures
        within(run(operation, moments).output, marker + ":0"@),
{
    marker_runs(operation, moments, marker);
}

/// A run of a Linux command that succeeds has an output that shows the operation's completion
/// marker followed by `:0`.
pub proof fn successful_commands_report_status_zero(
    operation_id: Seq<char>,
    board_id: Seq<char>,
    name: Seq<char>,
    expected: Option<Seq<char>>,
    policy: Option<Seq<char>>,
    command: Seq<char>,
    timeout_ms: int,
    moments: Seq<Moment>,
)
    requires
        run(
            planned(
                operation_id,
                board_id,
                name,
                expected,
                policy,
                linux_command_steps(command, operation_id, timeout_ms),
            ),
            moments,
        ).activity == (ActivityView::Ended { failure: None }),
    ensures
        ({
            let end = run(
                planned(
                    operation_id,
                    board_id,
                    name,
                    expected,
                    policy,
                    linux_command_steps(command, operation_id, timeout_ms),
                ),
                moments,
            );
            &&& within(end.output, completion_marker(operation_id) + ":0"@)
            &&& within(end.output, "__RPICTL_"@ + without(operation_id, '-') + "__"@ + ":0"@)
        }),
{
    let steps = linux_command_steps(command, operation_id, timeout_ms);
    let operation = planned(operation_id, board_id, name, expected, policy, steps);
    assert(ends_with_marker(steps, completion_marker(operation_id)));
    successful_transcripts_show_the_marker(operation, moments, completion_marker(operation_id));
}

/// Remembering the cursor remembers where the console output ends.
pub proof fn cursors_are_where_the_output_ends(
    operation: OperationView,
    boards: Map<Seq<char>, Board>,
    now_ms: int,
)
    requires
        at_step(operation, boards, StepView::Cursor),
    ensures
        ({
            let next = operation.next(boards, EventView::Proceed, now_ms);
            &&& went_on(operation, next)
            &&& next.cursor == boards[operation.board_id].serial@.next_cursor
            &&& next.seen == operation.seen
            &&& next.output == operation.output
            &&& next.actions == operation.actions
        }),
{
}

/// A note is added to the notes; a generation boundary is marked, and nothing else.
pub proof fn notes_are_added(
    operation: OperationView,
    boards: Map<Seq<char>, Board>,
    now_ms: int,
    text: Seq<char>,
)
    ensures
        at_step(operation, boards, StepView::Note { text }) ==> ({
            let next = operation.next(boards, EventView::Proceed, now_ms);
            &&& went_on(operation, next)
            &&& next.actions == operation.actions.push(text)
            &&& next.cursor == operation.cursor
            &&& next.seen == operation.seen
            &&& next.output == operation.output
            &&& !operation.marks(boards, EventView::Proceed)
        }),
        at_step(operation, boards, StepView::Mark) ==> just_went_on(
            operation,
            operation.next(boards, EventView::Proceed, now_ms),
        ) && operation.marks(boards, EventView::Proceed),
{
}

/// What is to be sent is asked to be sent as it is. The operation goes on when that was done, and
/// ends with the error where it failed.
pub proof fn bytes_are_sent_as_they_are(
    operation: OperationView,
    boards: Map<Seq<char>, Board>,
    now_ms: int,
    bytes: Seq<u8>,
    later: Map<Seq<char>, Board>,
    later_ms: int,
    error: ErrorView,
)
    requires
        at_step(operation, boards, StepView::Send { bytes }),
    ensures
        ({
            let sending = operation.next(boards, EventView::Proceed, now_ms);
            &&& sending.action() == (ActionView::Send { bytes })
            &&& just_went_on(
                operation,
                sending.next(later, EventView::Sent { failure: None }, later_ms),
            )
            &&& ended_with(
                sending.next(later, EventView::Sent { failure: Some(error) }, later_ms),
                error,
            )
        }),
{
}

/// A pause rests exactly as long as it says; a wait rests a tenth of a second between two looks.
pub proof fn pauses_rest_as_long_as_they_say(
    operation: OperationView,
    boards: Map<Seq<char>, Board>,
    now_ms: int,
    ms: int,
    later: Map<Seq<char>, Board>,
    later_ms: int,
)
    ensures
        at_step(operation, boards, StepView::Pause { ms }) ==> ({
            let pausing = operation.next(boards, EventView::Proceed, now_ms);
            &&& pausing.action() == (ActionView::Rest { ms })
            &&& just_went_on(operation, pausing.next(later, EventView::Rested, later_ms))
        }),
        operation.activity is Waiting ==> operation.action() == (ActionView::Rest { ms: 100 }),
{
}

/// A required state lets the operation go on exactly where the console shows it now; else the
/// operation ends with the step's error.
pub proof fn required_states_are_required(
    operation: OperationView,
    boards: Map<Seq<char>, Board>,
    now_ms: int,
    state: BoardState,
    error: ErrorView,
)
    requires
        at_step(operation, boards, StepView::Require { state, error }),
    ensures
        ({
            let next = operation.next(boards, EventView::Proceed, now_ms);
            if boards[operation.board_id].current_state() == state {
                just_went_on(operation, next)
            } else {
                ended_with(next, error)
            }
        }),
{
}

/// An early stop ends the operation with success exactly where the last wait saw its state; a
/// step that fails ends it with its error; without steps it ends with success.
pub proof fn stops_and_failures_end(
    operation: OperationView,
    boards: Map<Seq<char>, Board>,
    now_ms: int,
    state: BoardState,
    error: ErrorView,
)
    ensures
        ({
            let next = operation.next(boards, EventView::Proceed, now_ms);
            &&& at_step(operation, boards, StepView::StopIf { state }) ==> if operation.seen
                == state {
                next.activity == (ActivityView::Ended { failure: None }) && next.output
                    == operation.output && next.actions == operation.actions
            } else {
                just_went_on(operation, next)
            }
            &&& at_step(operation, boards, StepView::Fail { error }) ==> ended_with(next, error)
            &&& operation.activity is Ready && operation.steps.len() == 0 ==> next == (
            OperationView { activity: ActivityView::Ended { failure: None }, ..operation })
        }),
{
}

/// A switch of power begins the dialogue that switches the board's own power that way; a check
/// that power is off begins the dialogue that asks for it. Where no dialogue can begin, the
/// operation ends with the reason.
pub proof fn power_steps_begin_their_dialogue(
    operation: OperationView,
    boards: Map<Seq<char>, Board>,
    now_ms: int,
    on: bool,
    restore: bool,
    error: ErrorView,
)
    ensures
        ({
            let next = operation.next(boards, EventView::Proceed, now_ms);
            let power = boards[operation.board_id].profile.power;
            &&& at_step(operation, boards, StepView::Power { on, restore }) ==> match task_for(
                power,
                PowerGoal::Switch { on },
            ) {
                Ok(task) => next == (OperationView {
                    activity: ActivityView::Powering { task },
                    ..operation
                }),
                Err(reason) => next.activity matches ActivityView::Ended { failure }
                    && failure matches Some(said) && said.code == reason.code && said.phase
                    == reason.phase && (!restore ==> said == reason),
            }
            &&& at_step(operation, boards, StepView::RequireOff { error }) ==> match task_for(
                power,
                PowerGoal::Query,
            ) {
                Ok(task) => next == (OperationView {
                    activity: ActivityView::Powering { task },
                    ..operation
                }),
                Err(reason) => ended_with(next, reason),
            }
        }),
{
}

/// A check that power is off lets the operation go on exactly where the controller reports so.
/// Where it reports that power is on, the operation ends with the step's error; where it reports
/// neither, with an error of the same phase. A query that fails ends it with that error.
pub proof fn boards_required_off_are_off(
    operation: OperationView,
    boards: Map<Seq<char>, Board>,
    event: EventView,
    now_ms: int,
    error: ErrorView,
    task: TaskView,
)
    requires
        operation.steps.len() > 0,
        operation.steps[0] == (StepView::RequireOff { error }),
        operation.activity == (ActivityView::Powering { task }),
        event is Replied,
    ensures
        ({
            let next = operation.next(boards, event, now_ms);
            match task.next(event->reply).stage {
                StageView::Ended { result: Ok(observation) } => {
                    &&& observation.state == "off"@ <==> just_went_on(operation, next)
                    &&& observation.state == "on"@ ==> ended_with(next, error)
                    &&& observation.state != "on"@ && observation.state != "off"@ ==> (
                    next.activity matches ActivityView::Ended { failure }
                        && failure matches Some(said) && said.code
                        == ErrorCode::PowerStateUnverified && said.phase == error.phase)
                },
                StageView::Ended { result: Err(reason) } => ended_with(next, reason),
                _ => next == (OperationView {
                    activity: ActivityView::Powering { task: task.next(event->reply) },
                    ..operation
                }),
            }
        }),
{
    on_is_not_off();
}

proof fn on_is_not_off()
    ensures
        "on"@ != "off"@,
{
    reveal_strlit("on");
    reveal_strlit("off");
    assert("on"@.len() == 2);
    assert("off"@.len() == 3);
}

/// A switch of power lets the operation go on with what the controller said where the dialogue
/// succeeds, and ends it with the error where the dialogue fails. A switch that is to be restored
/// is tried once more first; the error is then still that of the first attempt, and its message
/// goes on to say whether the second succeeded.
pub proof fn failed_switches_are_reported(
    operation: OperationView,
    boards: Map<Seq<char>, Board>,
    event: EventView,
    now_ms: int,
    on: bool,
    restore: bool,
    task: TaskView,
    earlier: ErrorView,
)
    requires
        operation.steps.len() > 0,
        operation.steps[0] == (StepView::Power { on, restore }),
        event is Replied,
    ensures
        ({
            let next = operation.next(boards, event, now_ms);
            let after = task.next(event->reply);
            &&& operation.activity == (ActivityView::Powering { task }) ==> match after.stage {
                StageView::Ended { result: Ok(observation) } => {
                    &&& went_on(operation, next)
                    &&& next.output == observation.raw
                    &&& next.cursor == operation.cursor
                    &&& next.seen == operation.seen
                    &&& next.actions == operation.actions
                },
                StageView::Ended { result: Err(reason) } => if restore {
                    next.activity matches ActivityView::Restoring { task: second, error } && error
                        == reason && second.stage == (StageView::Read { after: false })
                        && second.goal == task.goal && second.identity == task.identity
                } else {
                    ended_with(next, reason)
                },
                _ => next.activity == (ActivityView::Powering { task: after }),
            }
            &&& operation.activity == (ActivityView::Restoring { task, error: earlier })
                ==> match after.stage {
                StageView::Ended { result } => next.activity matches ActivityView::Ended {
                    failure,
                } && failure matches Some(said) && said.code == earlier.code && said.phase
                    == earlier.phase && said.recovery == earlier.recovery && said.message
                    == earlier.message + if result is Ok {
                    "; power was restored"@
                } else {
                    "; power was not restored"@
                },
                _ => next.activity == (ActivityView::Restoring { task: after, error: earlier }),
            }
        }),
{
}

/// An operation whose board is gone ends when it next has to do with it.
pub proof fn operations_need_their_board(
    operation: OperationView,
    boards: Map<Seq<char>, Board>,
    event: EventView,
    now_ms: int,
)
    requires
        !boards.dom().contains(operation.board_id),
        operation.steps.len() > 0,
        looks(operation, event),
    ensures
        operation.next(boards, event, now_ms).activity matches ActivityView::Ended { failure }
            && failure matches Some(error) && error.code == ErrorCode::BoardNotFound,
{
}

/// What is to be done next for an operation is to let it proceed where it is ready, to run the
/// command that its dialogue waits for, and to take the result where it is over.
pub proof fn dialogues_run_their_commands(
    operation: OperationView,
    task: TaskView,
    error: ErrorView,
)
    ensures
        operation.activity is Ready ==> operation.action() is Proceed,
        operation.activity is Ended ==> operation.action() is Finish,
        (operation.activity == (ActivityView::Powering { task }) || operation.activity == (
        ActivityView::Restoring { task, error })) && task.command() is Some ==> operation.action()
            == (ActionView::Run { command: task.command()->0 }),
{
}

/// The report of an operation is a success and says what the operation is, what it noted and
/// took as output, what the board shows, and how long it took; a clock that went back counts as
/// no time.
pub proof fn reports_say_what_happened(
    operation: OperationView,
    state: BoardState,
    started_ms: int,
    finished_ms: int,
)
    ensures
        ({
            let result = report(operation, state, started_ms, finished_ms);
            &&& result.success
            &&& result.operation_id == operation.operation_id
            &&& result.board_id == operation.board_id
            &&& result.operation == operation.name
            &&& result.output == operation.output
            &&& result.actions == operation.actions
            &&& result.expected_state == operation.expected
            &&& result.policy_decision == operation.policy
            &&& result.observed_state == state.name()
            &&& result.started_ms == started_ms
            &&& result.finished_ms == finished_ms
            &&& finished_ms >= started_ms ==> result.started_ms + result.elapsed_ms
                == result.finished_ms
            &&& finished_ms < started_ms ==> result.elapsed_ms == 0
        }),
{
}

} // verus!
