//! What a board's console shows.

use vstd::prelude::*;

use crate::error::{fault, Error, ErrorCode, ErrorView};
use crate::registry::{board_not_found, Board, BoardRegistry};
use crate::serial::flatten;
use crate::state::{classify, BoardState, StateDetector};
use crate::text::{decode_lossy, decoded};

verus! {

/// How many bytes of console output are looked at.
pub const WINDOW: usize = 65_536;

impl Board {
    /// What the console showed since `cursor`, as far as it is looked at.
    pub open spec fn output_since(self, cursor: int) -> Seq<char> {
        decoded(flatten(self.serial@.snapshot_from(cursor, WINDOW as int).chunks))
    }

    /// What the console showed in the current generation, as far as it is looked at.
    pub open spec fn current_output(self) -> Seq<char> {
        decoded(
            flatten(
                self.serial@.snapshot_generation(
                    self.serial@.generation,
                    WINDOW as int,
                ).chunks,
            ),
        )
    }

    /// The state that the console showed since `cursor`.
    pub open spec fn state_since(self, cursor: int) -> BoardState {
        classify(self.profile.patterns, self.output_since(cursor))
    }

    /// The state that the console shows in the current generation.
    pub open spec fn current_state(self) -> BoardState {
        classify(self.profile.patterns, self.current_output())
    }
}

/// The error for a state that did not show in time.
pub open spec fn not_observed(fresh: bool) -> ErrorView {
    fault(
        ErrorCode::StateTimeout,
        "state_wait"@,
        if fresh {
            "fresh requested state was not observed before timeout"@
        } else {
            "requested state was not observed before timeout"@
        },
    )
}

/// What one look at the console comes to: the state where it is one of those waited for, else an
/// error once the time is up, else nothing yet.
pub open spec fn verdict(
    state: BoardState,
    states: Seq<BoardState>,
    expired: bool,
    fresh: bool,
) -> Result<Option<BoardState>, ErrorView> {
    if states.contains(state) {
        Ok(Some(state))
    } else if expired {
        Err(not_observed(fresh))
    } else {
        Ok(None)
    }
}

/// `result` says what `view` says.
pub open spec fn is_verdict(
    result: Result<Option<BoardState>, Error>,
    view: Result<Option<BoardState>, ErrorView>,
) -> bool {
    match view {
        Ok(state) => result matches Ok(s) && s == state,
        Err(error) => result matches Err(e) && e@ == error,
    }
}

/// What one look at the console comes to.
pub fn judge(state: BoardState, states: &[BoardState], expired: bool, fresh: bool) -> (result:
    Result<Option<BoardState>, Error>)
    ensures
        is_verdict(result, verdict(state, states@, expired, fresh)),
{
    let mut i: usize = 0;
    while i < states.len()
        invariant
            i <= states@.len(),
            forall|k: int| 0 <= k < i ==> states@[k] != state,
        decreases states@.len() - i,
    {
        if states[i] == state {
            assert(states@.contains(state));
            return Ok(Some(state));
        }
        i += 1;
    }
    if !expired {
        return Ok(None);
    }
    let message = if fresh {
        "fresh requested state was not observed before timeout"
    } else {
        "requested state was not observed before timeout"
    };
    Err(Error::new(ErrorCode::StateTimeout, "state_wait", message.to_owned()))
}

/// When a wait that begins now is over, in milliseconds.
pub fn deadline(now_ms: u64, timeout_ms: u64) -> (deadline_ms: u128)
    ensures
        deadline_ms == now_ms + timeout_ms,
{
    now_ms as u128 + timeout_ms as u128
}

/// What a look at a board comes to, where `state` is what it shows.
pub open spec fn look_verdict(
    boards: Map<Seq<char>, Board>,
    board_id: Seq<char>,
    state: BoardState,
    states: Seq<BoardState>,
    expired: bool,
    fresh: bool,
) -> Result<Option<BoardState>, ErrorView> {
    if boards.dom().contains(board_id) {
        verdict(state, states, expired, fresh)
    } else {
        Err(board_not_found(board_id))
    }
}

impl Board {
    /// What the console showed since `cursor`.
    fn read_since(&self, cursor: u64) -> (bytes: Vec<u8>)
        requires
            self.serial.wf(),
        ensures
            bytes@ == flatten(self.serial@.snapshot_from(cursor as int, WINDOW as int).chunks),
    {
        self.serial.snapshot_from(cursor, WINDOW).bytes()
    }

    /// What the console showed in the current generation.
    fn read_current(&self) -> (bytes: Vec<u8>)
        requires
            self.serial.wf(),
        ensures
            bytes@ == flatten(
                self.serial@.snapshot_generation(
                    self.serial@.generation,
                    WINDOW as int,
                ).chunks,
            ),
    {
        self.serial.snapshot_generation(self.serial.generation(), WINDOW).bytes()
    }
}

impl BoardRegistry {
    /// The state that a board's console shows in its current generation.
    pub fn observed_state(&self, board_id: &str) -> (result: Result<BoardState, Error>)
        requires
            self.wf(),
        ensures
            match result {
                Ok(state) => self@.dom().contains(board_id@) && state
                    == self@[board_id@].current_state(),
                Err(error) => !self@.dom().contains(board_id@) && error@ == board_not_found(
                    board_id@,
                ),
            },
    {
        match self.board(board_id) {
            Ok(board) => {
                let bytes = board.read_current();
                Ok(StateDetector::new(&board.profile.patterns).state_of(bytes.as_slice()))
            },
            Err(error) => Err(error),
        }
    }

    /// The state that a board's console showed since `cursor`.
    pub fn state_since(&self, board_id: &str, cursor: u64) -> (result: Result<BoardState, Error>)
        requires
            self.wf(),
        ensures
            match result {
                Ok(state) => self@.dom().contains(board_id@) && state
                    == self@[board_id@].state_since(cursor as int),
                Err(error) => !self@.dom().contains(board_id@) && error@ == board_not_found(
                    board_id@,
                ),
            },
    {
        match self.board(board_id) {
            Ok(board) => {
                let bytes = board.read_since(cursor);
                Ok(StateDetector::new(&board.profile.patterns).state_of(bytes.as_slice()))
            },
            Err(error) => Err(error),
        }
    }

    /// What a board's console showed since `cursor`.
    pub fn output_since(&self, board_id: &str, cursor: u64) -> (result: Result<String, Error>)
        requires
            self.wf(),
        ensures
            match result {
                Ok(text) => self@.dom().contains(board_id@) && text@
                    == self@[board_id@].output_since(cursor as int),
                Err(error) => !self@.dom().contains(board_id@) && error@ == board_not_found(
                    board_id@,
                ),
            },
    {
        match self.board(board_id) {
            Ok(board) => {
                let bytes = board.read_since(cursor);
                Ok(decode_lossy(bytes.as_slice()))
            },
            Err(error) => Err(error),
        }
    }

    /// One look for states in the current console generation, which counts only where it is the
    /// generation given, if one is. From the deadline on a state that does not show is an error;
    /// until then the answer is to look again after a rest.
    pub fn wait_for_states(
        &self,
        board_id: &str,
        states: &[BoardState],
        generation: Option<u64>,
        deadline_ms: u128,
        now_ms: u64,
    ) -> (result: Result<Option<BoardState>, Error>)
        requires
            self.wf(),
        ensures
            is_verdict(
                result,
                look_verdict(
                    self@,
                    board_id@,
                    self@[board_id@].current_state(),
                    match generation {
                        Some(expected) => if self@[board_id@].serial@.generation == expected {
                            states@
                        } else {
                            Seq::empty()
                        },
                        None => states@,
                    },
                    now_ms >= deadline_ms,
                    false,
                ),
            ),
    {
        let board = match self.board(board_id) {
            Ok(board) => board,
            Err(error) => {
                return Err(error);
            },
        };
        let bytes = board.read_current();
        let state = StateDetector::new(&board.profile.patterns).state_of(bytes.as_slice());
        let current: u64 = board.serial.generation();
        let expired = now_ms as u128 >= deadline_ms;
        match generation {
            Some(expected) => {
                if expected != current {
                    let none: Vec<BoardState> = Vec::new();
                    assert(none@ == Seq::<BoardState>::empty());
                    return judge(state, none.as_slice(), expired, false);
                }
            },
            None => {},
        }
        judge(state, states, expired, false)
    }
}

} // verus!
