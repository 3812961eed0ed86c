//! The configured boards.

use std::time::SystemTime;

use vstd::prelude::*;

use crate::config::{invalid_configuration, BoardProfile, Config};
use crate::error::{fault, Error, ErrorCode, ErrorView};
use crate::lease::{acquired, released, BoardLease, LeaseGuard, LeaseOutcome, LeaseOwner};
use crate::serial::{RingView, SerialRing};
use crate::text::{
    comes_before, debug_quoted, precedes, precedes_irreflexive, precedes_total,
    precedes_transitive, quoted, same,
};

verus! {

/// A board and what is known of it.
#[derive(Debug)]
pub struct Board {
    pub profile: BoardProfile,
    pub lease: BoardLease,
    pub serial: SerialRing,
    pub console_active: bool,
}

/// The configured boards, by id.
#[derive(Debug)]
pub struct BoardRegistry {
    boards: Vec<Board>,
}

/// The right to end a board's interactive console, given to the one that opened it.
#[derive(Debug)]
pub struct ConsoleClaim {
    board_id: String,
}

impl View for ConsoleClaim {
    type V = Seq<char>;

    closed spec fn view(&self) -> Seq<char> {
        self.board_id@
    }
}

/// Board `i` has the id `id`.
spec fn has_id(boards: Seq<Board>, i: int, id: Seq<char>) -> bool {
    0 <= i < boards.len() && boards[i].profile.board_id@ == id
}

/// The boards by their ids.
spec fn by_id(boards: Seq<Board>) -> Map<Seq<char>, Board> {
    Map::new(
        |id: Seq<char>| exists|i: int| has_id(boards, i, id),
        |id: Seq<char>| boards[choose|i: int| has_id(boards, i, id)],
    )
}

/// The ids ascend.
spec fn ascending(boards: Seq<Board>) -> bool {
    forall|i: int, k: int|
        #![trigger boards[i], boards[k]]
        0 <= i < k < boards.len() ==> precedes(
            boards[i].profile.board_id@,
            boards[k].profile.board_id@,
        )
}

/// No two profiles have one id.
#[verifier::opaque]
spec fn distinct_ids(profiles: Seq<BoardProfile>) -> bool {
    forall|i: int, k: int|
        #![trigger profiles[i], profiles[k]]
        0 <= i < profiles.len() && 0 <= k < profiles.len() && i != k ==> profiles[i].board_id@
            != profiles[k].board_id@
}

/// The boards are those of the profiles from `n` on, untouched, in order.
#[verifier::opaque]
spec fn gathered(boards: Seq<Board>, profiles: Seq<BoardProfile>, n: int, capacity: int) -> bool {
    &&& ascending(boards)
    &&& forall|i: int|
        0 <= i < boards.len() ==> (#[trigger] boards[i]).serial.wf() && made_from(
            boards[i],
            profiles,
            n,
            capacity,
        )
    &&& forall|k: int|
        n <= k < profiles.len() ==> exists|i: int|
            0 <= i < boards.len() && (#[trigger] boards[i]).profile == #[trigger] profiles[k]
}

spec fn made_from(board: Board, profiles: Seq<BoardProfile>, n: int, capacity: int) -> bool {
    exists|k: int| n <= k < profiles.len() && untouched(board, #[trigger] profiles[k], capacity)
}

/// The error for an id that no board has.
pub open spec fn board_not_found(id: Seq<char>) -> ErrorView {
    fault(
        ErrorCode::BoardNotFound,
        "discovery"@,
        "board "@ + quoted(id) + " is not configured"@,
    )
}

/// The error for a board that has an interactive console already.
pub open spec fn console_taken(id: Seq<char>) -> ErrorView {
    fault(
        ErrorCode::BoardBusy,
        "console"@,
        "board "@ + quoted(id) + " already has an interactive console"@,
    )
}

/// A board as it is before anything happens.
pub open spec fn untouched(board: Board, profile: BoardProfile, ring_bytes: int) -> bool {
    &&& board.profile == profile
    &&& board.lease@ is None
    &&& board.serial@ == RingView::empty(ring_bytes)
    &&& !board.console_active
}

/// The boards of a configuration as they are at first.
pub open spec fn initial(boards: Map<Seq<char>, Board>, config: Config) -> bool {
    &&& forall|id: Seq<char>|
        boards.dom().contains(id) <==> exists|i: int|
            0 <= i < config.boards@.len() && (#[trigger] config.boards@[i]).board_id@ == id
    &&& forall|i: int|
        0 <= i < config.boards@.len() ==> untouched(
            boards[(#[trigger] config.boards@[i]).board_id@],
            config.boards@[i],
            config.serial_ring_bytes as int,
        )
}

impl View for BoardRegistry {
    type V = Map<Seq<char>, Board>;

    closed spec fn view(&self) -> Map<Seq<char>, Board> {
        by_id(self.boards@)
    }
}

proof fn positions_are_unique(boards: Seq<Board>, i: int, k: int)
    requires
        ascending(boards),
        0 <= i < boards.len(),
        0 <= k < boards.len(),
        boards[i].profile.board_id@ == boards[k].profile.board_id@,
    ensures
        i == k,
{
    precedes_irreflexive(boards[i].profile.board_id@);
    if i < k {
        assert(precedes(boards[i].profile.board_id@, boards[k].profile.board_id@));
    }
    if k < i {
        assert(precedes(boards[k].profile.board_id@, boards[i].profile.board_id@));
    }
}

proof fn board_at(boards: Seq<Board>, i: int)
    requires
        ascending(boards),
        0 <= i < boards.len(),
    ensures
        by_id(boards).dom().contains(boards[i].profile.board_id@),
        by_id(boards)[boards[i].profile.board_id@] == boards[i],
{
    let id = boards[i].profile.board_id@;
    assert(has_id(boards, i, id));
    let k = choose|k: int| has_id(boards, k, id);
    positions_are_unique(boards, i, k);
}

proof fn board_replaced(before: Seq<Board>, after: Seq<Board>, i: int)
    requires
        ascending(before),
        0 <= i < before.len(),
        after.len() == before.len(),
        after == before.update(i, after[i]),
        after[i].profile == before[i].profile,
    ensures
        ascending(after),
        by_id(after) == by_id(before).insert(before[i].profile.board_id@, after[i]),
{
    let id = before[i].profile.board_id@;
    assert forall|k: int| 0 <= k < before.len() implies (#[trigger] after[k]).profile
        == before[k].profile by {}
    assert forall|j: int, k: int| #![trigger after[j], after[k]] 0 <= j < k < after.len() implies precedes(
        after[j].profile.board_id@,
        after[k].profile.board_id@,
    ) by {
        assert(precedes(before[j].profile.board_id@, before[k].profile.board_id@));
    }
    let expected = by_id(before).insert(id, after[i]);
    assert forall|other: Seq<char>| by_id(after).dom().contains(other)
        == expected.dom().contains(other) by {
        if by_id(after).dom().contains(other) {
            let k = choose|k: int| has_id(after, k, other);
            assert(has_id(before, k, other));
        }
        if by_id(before).dom().contains(other) {
            let k = choose|k: int| has_id(before, k, other);
            assert(has_id(after, k, other));
        }
        board_at(after, i);
    }
    assert forall|other: Seq<char>| by_id(after).dom().contains(other) implies by_id(after)[other]
        == expected[other] by {
        let k = choose|k: int| has_id(after, k, other);
        assert(has_id(after, k, other));
        board_at(after, k);
        board_at(before, k);
        if k == i {
            assert(other == id);
        } else if other == id {
            positions_are_unique(after, i, k);
        }
    }
    assert(by_id(after) == expected);
}

impl BoardRegistry {
    /// The boards stand in the order of their ids.
    pub closed spec fn ordered(self) -> bool {
        ascending(self.boards@)
    }

    /// The registry is valid: each board stands under its own id, its profile is sound, and so is
    /// its record of serial input.
    pub open spec fn wf(self) -> bool {
        &&& self.ordered()
        &&& forall|id: Seq<char>| #[trigger]
            self@.dom().contains(id) ==> {
                &&& self@[id].profile.board_id@ == id
                &&& self@[id].profile.problem() is None
                &&& self@[id].serial.wf()
            }
    }

    /// A registry of the boards of a valid configuration.
    pub fn new(config: Config) -> (result: Result<Self, Error>)
        ensures
            match config.problem() {
                Some(message) => result matches Err(error) && error@ == invalid_configuration(
                    message,
                ),
                None => result matches Ok(registry) && registry.wf() && initial(
                    registry@,
                    config,
                ),
            },
            result is Ok <==> config.valid(),
    {
        match config.validate() {
            Ok(()) => {},
            Err(error) => {
                return Err(error);
            },
        }
        let ghost profiles = config.boards@;
        let capacity: usize = config.serial_ring_bytes;
        let mut left = config.boards;
        let mut boards: Vec<Board> = Vec::new();
        proof {
            reveal(distinct_ids);
            reveal(gathered);
            assert(profiles.take(profiles.len() as int) == profiles);
        }
        while left.len() > 0
            invariant
                distinct_ids(profiles),
                capacity > 0,
                left@.len() <= profiles.len(),
                left@ == profiles.take(left@.len() as int),
                gathered(boards@, profiles, left@.len() as int, capacity as int),
            decreases left@.len(),
        {
            let ghost n = left@.len() - 1;
            assert(left@[n] == profiles[n]);
            let profile = left.pop().unwrap();
            let place: usize = place_for(&boards, profile.board_id.as_str());
            let board = Board {
                profile,
                lease: BoardLease::default(),
                serial: SerialRing::new(capacity),
                console_active: false,
            };
            proof {
                gathered_one_more(boards@, place as int, board, profiles, n, capacity as int);
                assert(left@ == profiles.take(n));
            }
            boards.insert(place, board);
        }
        let registry = BoardRegistry { boards };
        proof {
            registry_is_initial(registry, config);
        }
        Ok(registry)
    }

    /// The position of the board with the id, where there is one.
    fn find(&self, board_id: &str) -> (found: Result<usize, Error>)
        requires
            self.wf(),
        ensures
            match found {
                Ok(i) => i < self.boards@.len() && self@.dom().contains(board_id@)
                    && self.boards@[i as int] == self@[board_id@],
                Err(error) => !self@.dom().contains(board_id@) && error@ == board_not_found(
                    board_id@,
                ),
            },
    {
        let mut i: usize = 0;
        while i < self.boards.len()
            invariant
                i <= self.boards@.len(),
                self.wf(),
                forall|k: int| 0 <= k < i ==> !has_id(self.boards@, k, board_id@),
            decreases self.boards@.len() - i,
        {
            if same(self.boards[i].profile.board_id.as_str(), board_id) {
                proof {
                    board_at(self.boards@, i as int);
                }
                return Ok(i);
            }
            i += 1;
        }
        let mut message = "board ".to_owned();
        message.append(debug_quoted(board_id).as_str());
        message.append(" is not configured");
        Err(Error::new(ErrorCode::BoardNotFound, "discovery", message))
    }

    /// The board with the id.
    pub fn board(&self, board_id: &str) -> (result: Result<&Board, Error>)
        requires
            self.wf(),
        ensures
            match result {
                Ok(board) => self@.dom().contains(board_id@) && *board == self@[board_id@],
                Err(error) => !self@.dom().contains(board_id@) && error@ == board_not_found(
                    board_id@,
                ),
            },
    {
        match self.find(board_id) {
            Ok(i) => Ok(&self.boards[i]),
            Err(error) => Err(error),
        }
    }

    /// Every board, in the order of their ids.
    pub fn list(&self) -> (list: Vec<&Board>)
        requires
            self.wf(),
        ensures
            forall|i: int, k: int|
                #![trigger list@[i], list@[k]]
                0 <= i < k < list@.len() ==> precedes(
                    list@[i].profile.board_id@,
                    list@[k].profile.board_id@,
                ),
            forall|i: int|
                0 <= i < list@.len() ==> self@.dom().contains(
                    (#[trigger] list@[i]).profile.board_id@,
                ) && self@[list@[i].profile.board_id@] == *list@[i],
            forall|id: Seq<char>| #[trigger]
                self@.dom().contains(id) ==> exists|i: int|
                    0 <= i < list@.len() && (#[trigger] list@[i]).profile.board_id@ == id,
    {
        let mut list: Vec<&Board> = Vec::new();
        let mut i: usize = 0;
        while i < self.boards.len()
            invariant
                i <= self.boards@.len(),
                list@.len() == i,
                forall|k: int| 0 <= k < i ==> *(#[trigger] list@[k]) == self.boards@[k],
            decreases self.boards@.len() - i,
        {
            list.push(&self.boards[i]);
            i += 1;
        }
        proof {
            assert forall|i: int| 0 <= i < list@.len() implies self@.dom().contains(
                (#[trigger] list@[i]).profile.board_id@,
            ) && self@[list@[i].profile.board_id@] == *list@[i] by {
                board_at(self.boards@, i);
            }
            assert forall|id: Seq<char>| #[trigger] self@.dom().contains(id) implies exists|i: int|
                0 <= i < list@.len() && (#[trigger] list@[i]).profile.board_id@ == id by {
                let k = choose|k: int| has_id(self.boards@, k, id);
                assert(list@[k].profile.board_id@ == id);
            }
        }
        list
    }

    /// Asks for the lease of a board.
    pub fn acquire(&mut self, board_id: &str, owner: LeaseOwner, remaining: u128) -> (result:
        Result<LeaseOutcome, Error>)
        requires
            old(self).wf(),
        ensures
            final(self).wf(),
            if old(self)@.dom().contains(board_id@) {
                &&& final(self)@ == old(self)@.insert(
                    board_id@,
                    (Board { lease: final(self)@[board_id@].lease, ..old(self)@[board_id@] }),
                )
                &&& acquired(
                    old(self)@[board_id@].lease@,
                    owner@,
                    remaining as int,
                    result,
                    final(self)@[board_id@].lease@,
                )
            } else {
                &&& final(self)@ == old(self)@
                &&& result matches Err(error) && error@ == board_not_found(board_id@)
            },
    {
        let i: usize = match self.find(board_id) {
            Ok(i) => i,
            Err(error) => {
                return Err(error);
            },
        };
        let ghost before = self.boards@;
        let result = self.boards[i].lease.acquire(owner, remaining);
        proof {
            board_replaced(before, self.boards@, i as int);
        }
        result
    }

    /// Ends a lease on a board.
    pub fn release(&mut self, board_id: &str, guard: LeaseGuard)
        requires
            old(self).wf(),
        ensures
            final(self).wf(),
            if old(self)@.dom().contains(board_id@) {
                &&& final(self)@ == old(self)@.insert(
                    board_id@,
                    (Board { lease: final(self)@[board_id@].lease, ..old(self)@[board_id@] }),
                )
                &&& final(self)@[board_id@].lease@ == released(
                    old(self)@[board_id@].lease@,
                    guard@,
                )
            } else {
                final(self)@ == old(self)@
            },
    {
        if let Ok(i) = self.find(board_id) {
            let ghost before = self.boards@;
            self.boards[i].lease.release(guard);
            proof {
                board_replaced(before, self.boards@, i as int);
            }
        }
    }

    /// Records bytes that came on a board's serial line. Returns the cursor of the first.
    pub fn append_serial(&mut self, board_id: &str, timestamp: SystemTime, input: &[u8]) -> (result:
        Result<u64, Error>)
        requires
            old(self).wf(),
            old(self)@.dom().contains(board_id@) ==> old(self)@[board_id@].serial@.next_cursor
                + input@.len() <= u64::MAX,
        ensures
            final(self).wf(),
            if old(self)@.dom().contains(board_id@) {
                &&& final(self)@ == old(self)@.insert(
                    board_id@,
                    (Board { serial: final(self)@[board_id@].serial, ..old(self)@[board_id@] }),
                )
                &&& final(self)@[board_id@].serial@ == old(self)@[board_id@].serial@.appended(
                    timestamp,
                    input@,
                )
                &&& result == Ok::<u64, Error>(old(self)@[board_id@].serial@.next_cursor as u64)
            } else {
                &&& final(self)@ == old(self)@
                &&& result matches Err(error) && error@ == board_not_found(board_id@)
            },
    {
        let i: usize = match self.find(board_id) {
            Ok(i) => i,
            Err(error) => {
                return Err(error);
            },
        };
        let ghost before = self.boards@;
        let cursor: u64 = self.boards[i].serial.append(timestamp, input);
        proof {
            board_replaced(before, self.boards@, i as int);
        }
        Ok(cursor)
    }

    /// Begins a new console generation of a board and returns it.
    pub fn mark_generation(&mut self, board_id: &str) -> (result: Result<u64, Error>)
        requires
            old(self).wf(),
            old(self)@.dom().contains(board_id@) ==> old(self)@[board_id@].serial@.generation
                < u64::MAX,
        ensures
            final(self).wf(),
            if old(self)@.dom().contains(board_id@) {
                &&& final(self)@ == old(self)@.insert(
                    board_id@,
                    (Board { serial: final(self)@[board_id@].serial, ..old(self)@[board_id@] }),
                )
                &&& final(self)@[board_id@].serial@ == old(self)@[board_id@].serial@.marked()
                &&& result matches Ok(generation) && generation
                    == final(self)@[board_id@].serial@.generation
            } else {
                &&& final(self)@ == old(self)@
                &&& result matches Err(error) && error@ == board_not_found(board_id@)
            },
    {
        let i: usize = match self.find(board_id) {
            Ok(i) => i,
            Err(error) => {
                return Err(error);
            },
        };
        let ghost before = self.boards@;
        let generation: u64 = self.boards[i].serial.mark_generation();
        proof {
            board_replaced(before, self.boards@, i as int);
        }
        Ok(generation)
    }

    /// Opens the interactive console of a board that has none open.
    pub fn claim_console(&mut self, board_id: &str) -> (result: Result<ConsoleClaim, Error>)
        requires
            old(self).wf(),
        ensures
            final(self).wf(),
            if !old(self)@.dom().contains(board_id@) {
                &&& final(self)@ == old(self)@
                &&& result matches Err(error) && error@ == board_not_found(board_id@)
            } else if old(self)@[board_id@].console_active {
                &&& final(self)@ == old(self)@
                &&& result matches Err(error) && error@ == console_taken(board_id@)
            } else {
                &&& final(self)@ == old(self)@.insert(
                    board_id@,
                    (Board { console_active: true, ..old(self)@[board_id@] }),
                )
                &&& result matches Ok(claim) && claim@ == board_id@
            },
    {
        let i: usize = match self.find(board_id) {
            Ok(i) => i,
            Err(error) => {
                return Err(error);
            },
        };
        if self.boards[i].console_active {
            let mut message = "board ".to_owned();
            message.append(debug_quoted(board_id).as_str());
            message.append(" already has an interactive console");
            return Err(Error::new(ErrorCode::BoardBusy, "console", message));
        }
        let ghost before = self.boards@;
        self.boards[i].console_active = true;
        proof {
            board_replaced(before, self.boards@, i as int);
        }
        Ok(ConsoleClaim { board_id: board_id.to_owned() })
    }

    /// Closes the interactive console that the claim stands for.
    pub fn release_console(&mut self, claim: ConsoleClaim)
        requires
            old(self).wf(),
        ensures
            final(self).wf(),
            final(self)@ == if old(self)@.dom().contains(claim@) {
                old(self)@.insert(claim@, (Board { console_active: false, ..old(self)@[claim@] }))
            } else {
                old(self)@
            },
    {
        if let Ok(i) = self.find(claim.board_id.as_str()) {
            let ghost before = self.boards@;
            self.boards[i].console_active = false;
            proof {
                board_replaced(before, self.boards@, i as int);
            }
        }
    }
}

/// Where among the boards one with the id belongs.
fn place_for(boards: &Vec<Board>, id: &str) -> (place: usize)
    ensures
        place <= boards@.len(),
        forall|i: int|
            0 <= i < place ==> precedes((#[trigger] boards@[i]).profile.board_id@, id@),
        place < boards@.len() ==> !precedes(boards@[place as int].profile.board_id@, id@),
{
    let mut place: usize = 0;
    while place < boards.len()
        invariant
            place <= boards@.len(),
            forall|i: int|
                0 <= i < place ==> precedes((#[trigger] boards@[i]).profile.board_id@, id@),
        decreases boards@.len() - place,
    {
        if !comes_before(boards[place].profile.board_id.as_str(), id) {
            return place;
        }
        place += 1;
    }
    place
}

proof fn insertion_ascends(before: Seq<Board>, place: int, board: Board)
    requires
        ascending(before),
        0 <= place <= before.len(),
        forall|i: int|
            0 <= i < place ==> precedes(
                (#[trigger] before[i]).profile.board_id@,
                board.profile.board_id@,
            ),
        place < before.len() ==> precedes(
            board.profile.board_id@,
            before[place].profile.board_id@,
        ),
    ensures
        ascending(before.insert(place, board)),
{
    let after = before.insert(place, board);
    let id = board.profile.board_id@;
    assert forall|i: int, k: int| #![trigger after[i], after[k]] 0 <= i < k < after.len() implies precedes(
        after[i].profile.board_id@,
        after[k].profile.board_id@,
    ) by {
        let a = if i < place {
            i
        } else {
            i - 1
        };
        let b = if k < place {
            k
        } else {
            k - 1
        };
        if i == place {
            assert(after[k] == before[b]);
            if place < b {
                precedes_transitive(
                    id,
                    before[place].profile.board_id@,
                    before[b].profile.board_id@,
                );
            }
        } else if k == place {
            assert(after[i] == before[a]);
        } else {
            assert(after[i] == before[a]);
            assert(after[k] == before[b]);
        }
    }
}

proof fn gathered_one_more(
    before: Seq<Board>,
    place: int,
    board: Board,
    profiles: Seq<BoardProfile>,
    n: int,
    capacity: int,
)
    requires
        0 <= n < profiles.len(),
        gathered(before, profiles, n + 1, capacity),
        0 <= place <= before.len(),
        untouched(board, profiles[n], capacity),
        board.serial.wf(),
        distinct_ids(profiles),
        forall|i: int|
            0 <= i < place ==> precedes(
                (#[trigger] before[i]).profile.board_id@,
                board.profile.board_id@,
            ),
        place < before.len() ==> !precedes(
            before[place].profile.board_id@,
            board.profile.board_id@,
        ),
    ensures
        gathered(before.insert(place, board), profiles, n, capacity),
{
    reveal(distinct_ids);
    reveal(gathered);
    let after = before.insert(place, board);
    if place < before.len() {
        assert(made_from(before[place], profiles, n + 1, capacity));
        let k = choose|k: int|
            n + 1 <= k < profiles.len() && untouched(
                before[place],
                #[trigger] profiles[k],
                capacity,
            );
        assert(profiles[n].board_id@ != profiles[k].board_id@);
        precedes_total(before[place].profile.board_id@, board.profile.board_id@);
    }
    insertion_ascends(before, place, board);
    assert forall|i: int| 0 <= i < after.len() implies (#[trigger] after[i]).serial.wf()
        && made_from(after[i], profiles, n, capacity) by {
        if i == place {
            assert(untouched(after[i], profiles[n], capacity));
        } else {
            let j = if i < place {
                i
            } else {
                i - 1
            };
            assert(after[i] == before[j]);
            made_from_more(before[j], profiles, n, capacity);
        }
    }
    assert forall|k: int| n <= k < profiles.len() implies exists|i: int|
        0 <= i < after.len() && (#[trigger] after[i]).profile == #[trigger] profiles[k] by {
        if k == n {
            assert(after[place].profile == profiles[k]);
        } else {
            stays_after_insertion(before, place, board, profiles[k]);
        }
    }
}

/// A board made from one of fewer profiles is made from one of more.
proof fn made_from_more(board: Board, profiles: Seq<BoardProfile>, n: int, capacity: int)
    requires
        made_from(board, profiles, n + 1, capacity),
    ensures
        made_from(board, profiles, n, capacity),
{
    let k = choose|k: int|
        n + 1 <= k < profiles.len() && untouched(board, #[trigger] profiles[k], capacity);
    assert(untouched(board, profiles[k], capacity));
}

/// A profile that one of the boards has, one of them still has after an insertion.
proof fn stays_after_insertion(
    before: Seq<Board>,
    place: int,
    board: Board,
    profile: BoardProfile,
)
    requires
        0 <= place <= before.len(),
        exists|i: int| 0 <= i < before.len() && (#[trigger] before[i]).profile == profile,
    ensures
        exists|i: int|
            0 <= i < before.insert(place, board).len() && (#[trigger] before.insert(
                place,
                board,
            )[i]).profile == profile,
{
    let j = choose|j: int| 0 <= j < before.len() && (#[trigger] before[j]).profile == profile;
    let i = if j < place {
        j
    } else {
        j + 1
    };
    assert(before.insert(place, board)[i] == before[j]);
}

proof fn registry_is_initial(registry: BoardRegistry, config: Config)
    requires
        config.valid(),
        gathered(registry.boards@, config.boards@, 0, config.serial_ring_bytes as int),
    ensures
        registry.wf(),
        initial(registry@, config),
{
    reveal(gathered);
    let boards = registry.boards@;
    let profiles = config.boards@;
    let capacity = config.serial_ring_bytes as int;
    assert forall|id: Seq<char>| #[trigger] registry@.dom().contains(id) implies {
        &&& registry@[id].profile.board_id@ == id
        &&& registry@[id].profile.problem() is None
        &&& registry@[id].serial.wf()
        &&& exists|k: int| 0 <= k < profiles.len() && (#[trigger] profiles[k]).board_id@ == id
    } by {
        let i = choose|i: int| has_id(boards, i, id);
        board_at(boards, i);
        assert(made_from(boards[i], profiles, 0, capacity));
        let k = choose|k: int|
            0 <= k < profiles.len() && untouched(boards[i], #[trigger] profiles[k], capacity);
        assert(profiles[k].board_id@ == id);
    }
    assert forall|k: int| 0 <= k < profiles.len() implies registry@.dom().contains(
        (#[trigger] profiles[k]).board_id@,
    ) && untouched(registry@[profiles[k].board_id@], profiles[k], capacity) by {
        let i = choose|i: int|
            0 <= i < boards.len() && (#[trigger] boards[i]).profile == profiles[k];
        board_at(boards, i);
        assert(made_from(boards[i], profiles, 0, capacity));
        let j = choose|j: int|
            0 <= j < profiles.len() && untouched(boards[i], #[trigger] profiles[j], capacity);
        assert(j == k);
    }
    assert forall|id: Seq<char>|
        registry@.dom().contains(id) <==> exists|i: int|
            0 <= i < profiles.len() && (#[trigger] profiles[i]).board_id@ == id by {
        if exists|i: int| 0 <= i < profiles.len() && (#[trigger] profiles[i]).board_id@ == id {
            let i = choose|i: int| 0 <= i < profiles.len() && (#[trigger] profiles[i]).board_id@ == id;
            assert(registry@.dom().contains(profiles[i].board_id@));
        }
    }
}

} // verus!
