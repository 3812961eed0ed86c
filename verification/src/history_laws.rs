//! What is kept of a console's history, and what a look at it finds, byte by byte.

use vstd::prelude::*;

use std::time::SystemTime;

use crate::registry::Board;
use crate::serial::{
    after_arrivals, append_keeps_the_most_recent, appended_bytes_read_back, begins_generation,
    cursor_ends_the_contents, drop_front, flatten, generation_holds_all_since_its_beginning,
    of_generation, received, snapshot_is_a_window, total, Arrival, ChunkView, RingView,
};
use crate::state::classify;
use crate::text::decoded;

verus! {

/// The last `n` bytes, or all where there are no more.
pub open spec fn last_bytes(s: Seq<u8>, n: int) -> Seq<u8> {
    if s.len() <= n {
        s
    } else {
        s.subrange(s.len() - n, s.len() as int)
    }
}

/// A ring keeps all that it held and all that came, as long as there is room, and else the
/// newest bytes of that, as many as there is room for. Its cursor counts all that ever came.
pub proof fn the_newest_bytes_are_kept(ring: RingView, timestamp: SystemTime, input: Seq<u8>)
    requires
        ring.wf(),
    ensures
        ring.appended(timestamp, input).contents() == last_bytes(
            ring.contents() + input,
            ring.capacity,
        ),
        ring.appended(timestamp, input).next_cursor == ring.next_cursor + input.len(),
        ring.appended(timestamp, input).capacity == ring.capacity,
        ring.appended(timestamp, input).generation == ring.generation,
{
    append_keeps_the_most_recent(ring, timestamp, input);
}

/// A generation boundary is just that: everything else stays.
pub proof fn boundaries_change_the_generation_only(ring: RingView)
    ensures
        ring.marked().generation == ring.generation + 1,
        ring.marked().next_cursor == ring.next_cursor,
        ring.marked().capacity == ring.capacity,
        ring.marked().contents() == ring.contents(),
        ring.marked().chunks == ring.chunks,
{
}

proof fn shifted(chunks: Seq<ChunkView>, n: int)
    requires
        n >= 0,
    ensures
        drop_front(chunks, n).len() <= chunks.len(),
        forall|i: int|
            0 <= i < drop_front(chunks, n).len() ==> {
                let old = chunks[i + chunks.len() - drop_front(chunks, n).len()];
                &&& (#[trigger] drop_front(chunks, n)[i]).generation == old.generation
                &&& drop_front(chunks, n)[i].timestamp == old.timestamp
            },
    decreases chunks.len(),
{
    if chunks.len() > 0 && n >= chunks.first().bytes.len() {
        let rest = chunks.drop_first();
        let m = n - chunks.first().bytes.len();
        shifted(rest, m);
        assert forall|i: int| 0 <= i < drop_front(chunks, n).len() implies ({
            let old = chunks[i + chunks.len() - drop_front(chunks, n).len()];
            &&& (#[trigger] drop_front(chunks, n)[i]).generation == old.generation
            &&& drop_front(chunks, n)[i].timestamp == old.timestamp
        }) by {
            assert(drop_front(rest, m)[i] == drop_front(chunks, n)[i]);
        }
    }
}

/// What comes is kept with the time and the generation that it came in, and ends at the cursor;
/// what is kept of before keeps its own time and generation.
pub proof fn bytes_keep_their_time_and_generation(
    ring: RingView,
    timestamp: SystemTime,
    input: Seq<u8>,
)
    requires
        ring.wf(),
        input.len() > 0,
    ensures
        ({
            let after = ring.appended(timestamp, input);
            let n = after.chunks.len() - 1;
            let newest = after.chunks[n];
            &&& 0 <= n <= ring.chunks.len()
            &&& newest.generation == ring.generation
            &&& newest.timestamp == timestamp
            &&& newest.bytes == last_bytes(input, ring.capacity)
            &&& newest.cursor + newest.bytes.len() == after.next_cursor
            &&& forall|i: int|
                0 <= i < n ==> {
                    let old = ring.chunks[i + ring.chunks.len() - n];
                    &&& (#[trigger] after.chunks[i]).generation == old.generation
                    &&& after.chunks[i].timestamp == old.timestamp
                }
        }),
{
    let kept = last_bytes(input, ring.capacity);
    let excess = total(ring.chunks) + kept.len() - ring.capacity;
    let n = if excess < 0 {
        0
    } else {
        excess
    };
    shifted(ring.chunks, n);
    let after = ring.appended(timestamp, input);
    let before = drop_front(ring.chunks, n);
    assert(after.chunks.drop_last() == before);
    assert forall|i: int| 0 <= i < before.len() implies ({
        let old = ring.chunks[i + ring.chunks.len() - before.len()];
        &&& (#[trigger] after.chunks[i]).generation == old.generation
        &&& after.chunks[i].timestamp == old.timestamp
    }) by {
        assert(after.chunks[i] == before[i]);
    }
}

/// A look from a cursor finds the bytes from there on, as many as are asked for, and says where
/// they end. From before the oldest byte it begins with that one; from after the newest it finds
/// nothing. It is truncated where bytes from the cursor on are gone or left out.
pub proof fn looks_begin_at_their_cursor(ring: RingView, cursor: int, limit: int)
    requires
        ring.wf(),
        0 <= limit,
    ensures
        ({
            let all = ring.contents();
            let oldest = ring.next_cursor - all.len();
            let look = ring.snapshot_from(cursor, limit);
            let bytes = flatten(look.chunks);
            &&& oldest <= cursor <= ring.next_cursor && cursor + limit <= ring.next_cursor ==> bytes
                == all.subrange(cursor - oldest, cursor - oldest + limit)
            &&& oldest <= cursor <= ring.next_cursor && cursor + limit > ring.next_cursor ==> bytes
                == all.subrange(cursor - oldest, all.len() as int)
            &&& cursor < oldest ==> look.truncated && bytes == flatten(
                ring.snapshot_from(oldest, limit).chunks,
            )
            &&& cursor > ring.next_cursor ==> bytes.len() == 0 && look.next_cursor == cursor
            &&& oldest <= cursor <= ring.next_cursor ==> look.next_cursor == cursor + bytes.len()
            &&& oldest <= cursor <= ring.next_cursor ==> (look.truncated <==> cursor + limit
                < ring.next_cursor)
        }),
{
    cursor_ends_the_contents(ring);
    snapshot_is_a_window(ring, cursor, limit);
    snapshot_is_a_window(ring, ring.oldest(), limit);
}

/// A look at the current generation finds all that came since it began, as far as there was room
/// for it, and of that the newest bytes, as many as are asked for.
pub proof fn generations_show_their_newest_bytes(
    ring: RingView,
    arrivals: Seq<Arrival>,
    limit: int,
)
    requires
        begins_generation(ring),
        ring.next_cursor + received(arrivals).len() <= u64::MAX,
        0 <= limit,
    ensures
        ({
            let after = after_arrivals(ring, arrivals);
            let look = after.snapshot_generation(after.generation, limit);
            &&& after.generation == ring.generation
            &&& flatten(look.chunks) == last_bytes(
                last_bytes(received(arrivals), ring.capacity),
                limit,
            )
            &&& look.truncated <==> last_bytes(received(arrivals), ring.capacity).len() > limit
        }),
{
    generation_holds_all_since_its_beginning(ring, arrivals, limit);
}

/// What a board's console shows since a cursor is what came since then, up to the last that fits
/// in 65536 bytes from there: where so much came since, and no more than the board keeps, it is
/// just that.
pub proof fn new_output_is_what_came(
    before: Board,
    after: Board,
    timestamp: SystemTime,
    input: Seq<u8>,
)
    requires
        before.serial@.wf(),
        before.serial@.next_cursor + input.len() <= u64::MAX,
        input.len() <= before.serial@.capacity,
        input.len() <= 65_536,
        after.profile == before.profile,
        after.serial@ == before.serial@.appended(timestamp, input),
    ensures
        after.output_since(before.serial@.next_cursor) == decoded(input),
        after.state_since(before.serial@.next_cursor) == classify(
            before.profile.patterns,
            decoded(input),
        ),
{
    appended_bytes_read_back(before.serial@, timestamp, input, 65_536);
}

/// What a board's console shows now is what came since the generation began: where that is no
/// more than 65536 bytes and no more than the board keeps, just that; else the newest of it.
pub proof fn current_output_is_what_came(before: Board, after: Board, arrivals: Seq<Arrival>)
    requires
        begins_generation(before.serial@),
        before.serial@.next_cursor + received(arrivals).len() <= u64::MAX,
        after.profile == before.profile,
        after.serial@ == after_arrivals(before.serial@, arrivals),
    ensures
        after.current_output() == decoded(
            last_bytes(last_bytes(received(arrivals), before.serial@.capacity), 65_536),
        ),
        after.current_state() == classify(before.profile.patterns, after.current_output()),
        received(arrivals).len() <= before.serial@.capacity && received(arrivals).len() <= 65_536
            ==> after.current_output() == decoded(received(arrivals)),
{
    generations_show_their_newest_bytes(before.serial@, arrivals, 65_536);
}

/// Chunks of another generation are left out of a look at one, and every chunk of it is kept, in
/// order.
pub proof fn generations_are_told_apart(chunks: Seq<ChunkView>, last: ChunkView, generation: int)
    ensures
        of_generation(chunks.push(last), generation) == if last.generation == generation {
            of_generation(chunks, generation).push(last)
        } else {
            of_generation(chunks, generation)
        },
        of_generation(Seq::empty(), generation) == Seq::<ChunkView>::empty(),
    decreases chunks.len(),
{
    let all = chunks.push(last);
    if chunks.len() == 0 {
        assert(all.drop_first() == Seq::<ChunkView>::empty());
        assert(of_generation(all.drop_first(), generation) == Seq::<ChunkView>::empty());
        assert(chunks == Seq::<ChunkView>::empty());
        if last.generation == generation {
            assert(of_generation(all, generation) == seq![last]);
        }
    } else {
        let rest = chunks.drop_first();
        generations_are_told_apart(rest, last, generation);
        assert(all.drop_first() == rest.push(last));
        assert(all.first() == chunks.first());
        let head = seq![chunks.first()];
        assert(head + of_generation(rest, generation).push(last) == (head + of_generation(
            rest,
            generation,
        )).push(last));
    }
}

} // verus!
