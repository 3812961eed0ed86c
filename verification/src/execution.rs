//! An operation from its request to its result: it waits for the lease of its board, runs under
//! that lease, and gives it back.

use vstd::pervasive::unreached;
use vstd::prelude::*;

use crate::error::{Error, ErrorView};
use crate::lease::{lease_held, released, LeaseGuard, LeaseOutcome};
use crate::observation::deadline;
use crate::operations::{reported, OperationResult};
use crate::procedure::{
    events_keep_the_owner, Action, ActionView, Event, EventView, Operation, OperationView,
};
use crate::registry::{board_not_found, Board, BoardRegistry};
use crate::state::BoardState;

verus! {

#[derive(Debug)]
enum Standing {
    Queued { deadline_ms: u128 },
    Held { guard: LeaseGuard },
    Refused { error: Error },
}

/// How an execution stands with the lease.
pub enum StandingView {
    /// It waits for the lease, until the deadline.
    Queued { deadline_ms: int },
    /// It holds the lease, and the operation runs.
    Held,
    /// It did not get the lease, and the operation does not run.
    Refused { error: ErrorView },
}

/// The execution of an operation.
#[derive(Debug)]
pub struct Execution {
    operation: Operation,
    standing: Standing,
    started_ms: u64,
}

/// What an execution is and how far it has come.
pub struct ExecutionView {
    pub operation: OperationView,
    pub standing: StandingView,
    pub started_ms: int,
}

impl View for Execution {
    type V = ExecutionView;

    closed spec fn view(&self) -> ExecutionView {
        ExecutionView {
            operation: self.operation@,
            standing: match self.standing {
                Standing::Queued { deadline_ms } => StandingView::Queued {
                    deadline_ms: deadline_ms as int,
                },
                Standing::Held { guard } => StandingView::Held,
                Standing::Refused { error } => StandingView::Refused { error: error@ },
            },
            started_ms: self.started_ms as int,
        }
    }
}

impl ExecutionView {
    /// The execution after it asks for the lease: it gets a free one; where another operation
    /// holds it, it goes on waiting before the deadline and is refused from then on.
    pub open spec fn asked(self, boards: Map<Seq<char>, Board>, now_ms: int) -> ExecutionView {
        let id = self.operation.board_id;
        match self.standing {
            StandingView::Queued { deadline_ms } => if !boards.dom().contains(id) {
                ExecutionView {
                    standing: StandingView::Refused { error: board_not_found(id) },
                    ..self
                }
            } else {
                match boards[id].lease@ {
                    None => ExecutionView { standing: StandingView::Held, ..self },
                    Some(holder) => if now_ms >= deadline_ms {
                        ExecutionView {
                            standing: StandingView::Refused { error: lease_held(holder) },
                            ..self
                        }
                    } else {
                        self
                    },
                }
            },
            _ => self,
        }
    }

    /// What is to be done next: while the lease is waited for, to ask for it.
    pub open spec fn action(self) -> ActionView {
        match self.standing {
            StandingView::Queued { deadline_ms } => ActionView::Lease { deadline_ms },
            StandingView::Held => self.operation.action(),
            StandingView::Refused { error } => ActionView::Finish,
        }
    }

    /// The execution holds the lease of its operation's board.
    pub open spec fn leased(self, boards: Map<Seq<char>, Board>) -> bool {
        self.standing is Held && self.operation.leased(boards)
    }

    /// The execution is over: it was refused, or the operation has ended.
    pub open spec fn over(self) -> bool {
        match self.standing {
            StandingView::Queued { deadline_ms } => false,
            StandingView::Held => self.operation.activity is Ended,
            StandingView::Refused { error } => true,
        }
    }
}

impl BoardRegistry {
    /// How long an operation on a board waits for the board's lease, in milliseconds.
    pub fn lease_wait(&self, board_id: &str) -> (result: Result<u64, Error>)
        requires
            self.wf(),
        ensures
            match result {
                Ok(ms) => self@.dom().contains(board_id@) && ms
                    == self@[board_id@].profile.timing.operation_timeout_ms,
                Err(error) => !self@.dom().contains(board_id@) && error@ == board_not_found(
                    board_id@,
                ),
            },
    {
        match self.board(board_id) {
            Ok(board) => Ok(board.profile.operation_timeout()),
            Err(error) => Err(error),
        }
    }

    /// Begins the execution of an operation, which waits for its lease from now on, and no longer
    /// than the board's operation timeout.
    pub fn begin(&self, operation: Operation, started_ms: u64, now_ms: u64) -> (result: Result<
        Execution,
        Error,
    >)
        requires
            self.wf(),
            operation.wf(),
        ensures
            ({
                let id = operation@.board_id;
                if self@.dom().contains(id) {
                    &&& result matches Ok(execution)
                    &&& execution.wf()
                    &&& execution@ == (ExecutionView {
                        operation: operation@,
                        standing: StandingView::Queued {
                            deadline_ms: now_ms + self@[id].profile.timing.operation_timeout_ms,
                        },
                        started_ms: started_ms as int,
                    })
                } else {
                    result matches Err(error) && error@ == board_not_found(id)
                }
            }),
    {
        match self.lease_wait(operation.board_id()) {
            Ok(ms) => {
                let deadline_ms: u128 = deadline(now_ms, ms);
                Ok(Execution { operation, standing: Standing::Queued { deadline_ms }, started_ms })
            },
            Err(error) => Err(error),
        }
    }
}

impl Execution {
    /// The guard is that of the operation's own lease.
    pub closed spec fn guarded(self) -> bool {
        match self.standing {
            Standing::Held { guard } => guard@ == self.operation@.owner(),
            _ => true,
        }
    }

    /// The execution is valid.
    pub open spec fn wf(self) -> bool {
        self.guarded() && self@.operation.coherent()
    }

    /// The operation.
    pub fn operation(&self) -> (operation: &Operation)
        ensures
            operation@ == self@.operation,
    {
        &self.operation
    }

    /// What is to be done next.
    pub fn action(&self) -> (action: Action)
        requires
            self.wf(),
        ensures
            action@ == self@.action(),
    {
        match &self.standing {
            Standing::Queued { deadline_ms } => Action::Lease { deadline_ms: *deadline_ms },
            Standing::Held { guard: _ } => self.operation.action(),
            Standing::Refused { error: _ } => Action::Finish,
        }
    }

    /// Whether the execution holds the lease of its operation's board.
    pub fn holds_lease(&self, registry: &BoardRegistry) -> (holds: bool)
        requires
            registry.wf(),
        ensures
            holds == self@.leased(registry@),
    {
        let held = match &self.standing {
            Standing::Held { guard: _ } => true,
            _ => false,
        };
        match registry.board(self.operation.board_id()) {
            Ok(board) => match board.lease.owner() {
                Some(holder) => {
                    let owner = self.operation.owner();
                    held && holder.operation_id == owner.operation_id && holder.operation
                        == owner.operation
                },
                None => false,
            },
            Err(_) => false,
        }
    }

    /// Asks for the lease, at a time in milliseconds. The operation does not run by this.
    pub fn ask(&mut self, registry: &mut BoardRegistry, now_ms: u64)
        requires
            old(self).wf(),
            old(registry).wf(),
        ensures
            final(self).wf(),
            final(registry).wf(),
            final(self)@ == old(self)@.asked(old(registry)@, now_ms as int),
            ({
                let id = old(self)@.operation.board_id;
                if old(self)@.standing is Queued && old(registry)@.dom().contains(id) {
                    &&& final(registry)@ == old(registry)@.insert(
                        id,
                        (Board { lease: final(registry)@[id].lease, ..old(registry)@[id] }),
                    )
                    &&& final(registry)@[id].lease@ == match old(registry)@[id].lease@ {
                        Some(holder) => Some(holder),
                        None => Some(old(self)@.operation.owner()),
                    }
                } else {
                    final(registry)@ == old(registry)@
                }
            }),
            old(self)@.standing is Queued && final(self)@.standing is Held ==> final(self)@.leased(
                final(registry)@,
            ),
    {
        let deadline_ms: u128 = match &self.standing {
            Standing::Queued { deadline_ms } => *deadline_ms,
            _ => {
                return;
            },
        };
        let now: u128 = now_ms as u128;
        let remaining: u128 = if now >= deadline_ms {
            0
        } else {
            deadline_ms - now
        };
        match registry.lease_for(&self.operation, remaining) {
            Ok(LeaseOutcome::Granted(guard)) => {
                self.standing = Standing::Held { guard };
            },
            Ok(LeaseOutcome::Wait) => {},
            Err(error) => {
                self.standing = Standing::Refused { error };
            },
        }
    }

    /// Takes what came of the operation's action, at a time in milliseconds. The execution holds
    /// the lease, before and after.
    pub fn step(&mut self, registry: &mut BoardRegistry, event: Event, now_ms: u64)
        requires
            old(self).wf(),
            old(registry).wf(),
            old(self)@.leased(old(registry)@),
            old(self)@.operation.marks(old(registry)@, event@) ==> old(registry)@[old(
                self,
            )@.operation.board_id].serial@.generation < u64::MAX,
        ensures
            final(self).wf(),
            final(registry).wf(),
            final(self)@ == (ExecutionView {
                operation: old(self)@.operation.next(old(registry)@, event@, now_ms as int),
                ..old(self)@
            }),
            if old(self)@.operation.marks(old(registry)@, event@) {
                let id = old(self)@.operation.board_id;
                &&& final(registry)@ == old(registry)@.insert(
                    id,
                    (Board { serial: final(registry)@[id].serial, ..old(registry)@[id] }),
                )
                &&& final(registry)@[id].serial@ == old(registry)@[id].serial@.marked()
            } else {
                final(registry)@ == old(registry)@
            },
            final(self)@.leased(final(registry)@),
    {
        if let Standing::Held { guard } = &self.standing {
            self.operation.step(registry, guard, event, now_ms);
        }
    }

    /// Ends an execution that is over. One that was refused returns that error and leaves the
    /// boards as they are. One that ran gives the lease back, and returns the operation's error or
    /// a report; the board's state is the one that its console shows.
    pub fn finish(self, registry: &mut BoardRegistry, finished_ms: u64) -> (result: Result<
        OperationResult,
        Error,
    >)
        requires
            self.wf(),
            old(registry).wf(),
            self@.over(),
        ensures
            final(registry).wf(),
            match self@.standing {
                StandingView::Refused { error } => {
                    &&& final(registry)@ == old(registry)@
                    &&& result matches Err(e) && e@ == error
                },
                _ => {
                    let id = self@.operation.board_id;
                    &&& if old(registry)@.dom().contains(id) {
                        &&& final(registry)@ == old(registry)@.insert(
                            id,
                            (Board { lease: final(registry)@[id].lease, ..old(registry)@[id] }),
                        )
                        &&& final(registry)@[id].lease@ == released(
                            old(registry)@[id].lease@,
                            self@.operation.owner(),
                        )
                    } else {
                        final(registry)@ == old(registry)@
                    }
                    &&& reported(
                        result,
                        self@.operation,
                        if old(registry)@.dom().contains(id) {
                            old(registry)@[id].current_state()
                        } else {
                            BoardState::Unknown
                        },
                        self@.started_ms,
                        finished_ms as int,
                    )
                },
            },
            self@.leased(old(registry)@)
                ==> final(registry)@[self@.operation.board_id].lease@ is None,
    {
        match self.standing {
            Standing::Refused { error } => Err(error),
            Standing::Held { guard } => registry.finish(
                self.operation,
                guard,
                self.started_ms,
                finished_ms,
            ),
            Standing::Queued { deadline_ms: _ } => unreached(),
        }
    }
}

/// Asking for the lease takes no step of the operation: one that is refused has done nothing.
pub proof fn refused_operations_do_nothing(
    execution: ExecutionView,
    boards: Map<Seq<char>, Board>,
    now_ms: int,
)
    ensures
        execution.asked(boards, now_ms).operation == execution.operation,
        execution.asked(boards, now_ms).started_ms == execution.started_ms,
{
}

/// The wait for the lease is over at the deadline: from then on an execution holds the lease or
/// is refused, with the name of the operation that holds it. Before that it is not refused.
pub proof fn lease_wait_ends_at_the_deadline(
    execution: ExecutionView,
    boards: Map<Seq<char>, Board>,
    now_ms: int,
)
    requires
        boards.dom().contains(execution.operation.board_id),
        execution.standing is Queued,
    ensures
        ({
            let deadline_ms = execution.standing->deadline_ms;
            let next = execution.asked(boards, now_ms);
            &&& now_ms >= deadline_ms ==> next.standing !is Queued
            &&& now_ms < deadline_ms ==> next.standing !is Refused
            &&& next.standing is Refused ==> (boards[execution.operation.board_id].lease@ matches Some(
                holder,
            ) && next.standing == (StandingView::Refused { error: lease_held(holder) }))
        }),
{
}

/// A turn of an execution: it asks for the lease, or the operation takes an event.
pub enum Turn {
    Ask { boards: Map<Seq<char>, Board>, now_ms: int },
    Step { boards: Map<Seq<char>, Board>, event: EventView, now_ms: int },
}

/// The execution after some turns, of which those that step the operation count only where it
/// holds its lease.
pub open spec fn after_turns(execution: ExecutionView, turns: Seq<Turn>) -> ExecutionView
    decreases turns.len(),
{
    if turns.len() == 0 {
        execution
    } else {
        let before = after_turns(execution, turns.drop_last());
        match turns.last() {
            Turn::Ask { boards, now_ms } => before.asked(boards, now_ms),
            Turn::Step { boards, event, now_ms } => if before.leased(boards) {
                ExecutionView { operation: before.operation.next(boards, event, now_ms), ..before }
            } else {
                before
            },
        }
    }
}

/// The turns of an execution can be taken as `Execution` takes them: the operation is stepped
/// only under its lease.
pub open spec fn proper(execution: ExecutionView, turns: Seq<Turn>) -> bool
    decreases turns.len(),
{
    turns.len() == 0 || {
        &&& proper(execution, turns.drop_last())
        &&& turns.last() matches Turn::Step { boards, event, now_ms } ==> after_turns(
            execution,
            turns.drop_last(),
        ).leased(boards)
    }
}

/// Until it holds the lease an operation has done nothing, and one that is refused never does
/// anything: its steps, its notes and its output are those it was planned with.
pub proof fn operations_run_only_under_their_lease(execution: ExecutionView, turns: Seq<Turn>)
    requires
        execution.standing is Queued,
        proper(execution, turns),
    ensures
        after_turns(execution, turns).standing !is Held ==> after_turns(execution, turns).operation
            == execution.operation,
        after_turns(execution, turns).operation.board_id == execution.operation.board_id,
        after_turns(execution, turns).operation.owner() == execution.operation.owner(),
    decreases turns.len(),
{
    if turns.len() > 0 {
        let before = after_turns(execution, turns.drop_last());
        operations_run_only_under_their_lease(execution, turns.drop_last());
        if let Turn::Step { boards, event, now_ms } = turns.last() {
            events_keep_the_owner(before.operation, boards, event, now_ms);
        }
    }
}

} // verus!
