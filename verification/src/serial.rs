//! A bounded record of serial input, addressed by byte cursors and split into console
//! generations.

use std::collections::VecDeque;
use std::time::SystemTime;

use vstd::prelude::*;

use crate::text::copy_bytes;

verus! {

/// `SystemTime`, carried through unread.
#[verifier::external_type_specification]
#[verifier::external_body]
pub struct ExSystemTime(SystemTime);

/// A run of bytes received together.
#[derive(Debug)]
pub struct SerialChunk {
    pub cursor: u64,
    pub generation: u64,
    pub timestamp: SystemTime,
    pub bytes: Vec<u8>,
}

/// A copy of a part of the record.
#[derive(Debug)]
pub struct SerialSnapshot {
    pub chunks: Vec<SerialChunk>,
    pub next_cursor: u64,
    pub truncated: bool,
}

/// The most recent bytes of a serial line, up to a fixed capacity.
#[derive(Debug)]
pub struct SerialRing {
    capacity: usize,
    bytes: usize,
    next_cursor: u64,
    generation: u64,
    chunks: VecDeque<SerialChunk>,
}

/// What a chunk holds: bytes, the cursor of the first of them, the console generation and the
/// time at which they came.
pub struct ChunkView {
    pub cursor: int,
    pub generation: int,
    pub timestamp: SystemTime,
    pub bytes: Seq<u8>,
}

impl View for SerialChunk {
    type V = ChunkView;

    open spec fn view(&self) -> ChunkView {
        ChunkView {
            cursor: self.cursor as int,
            generation: self.generation as int,
            timestamp: self.timestamp,
            bytes: self.bytes@,
        }
    }
}

/// What each chunk of a list holds.
pub open spec fn chunk_views(chunks: Seq<SerialChunk>) -> Seq<ChunkView> {
    chunks.map_values(|chunk: SerialChunk| chunk@)
}

/// What a snapshot holds.
pub struct SnapshotView {
    pub chunks: Seq<ChunkView>,
    pub next_cursor: int,
    pub truncated: bool,
}

impl View for SerialSnapshot {
    type V = SnapshotView;

    open spec fn view(&self) -> SnapshotView {
        SnapshotView {
            chunks: chunk_views(self.chunks@),
            next_cursor: self.next_cursor as int,
            truncated: self.truncated,
        }
    }
}

/// What a ring holds.
pub struct RingView {
    pub capacity: int,
    pub next_cursor: int,
    pub generation: int,
    pub chunks: Seq<ChunkView>,
}

/// How many bytes the chunks hold.
pub open spec fn total(chunks: Seq<ChunkView>) -> int
    decreases chunks.len(),
{
    if chunks.len() == 0 {
        0
    } else {
        chunks.first().bytes.len() + total(chunks.drop_first())
    }
}

/// The bytes of the chunks, in order.
pub open spec fn flatten(chunks: Seq<ChunkView>) -> Seq<u8>
    decreases chunks.len(),
{
    if chunks.len() == 0 {
        Seq::empty()
    } else {
        chunks.first().bytes + flatten(chunks.drop_first())
    }
}

/// `a`, but at least zero.
pub open spec fn floor(a: int) -> int {
    if a < 0 {
        0
    } else {
        a
    }
}

/// The smaller of two numbers.
pub open spec fn least(a: int, b: int) -> int {
    if a < b {
        a
    } else {
        b
    }
}

/// The greater of two numbers.
pub open spec fn greatest(a: int, b: int) -> int {
    if a < b {
        b
    } else {
        a
    }
}

/// The last `n` elements of `s`, or all of them where there are fewer.
pub open spec fn tail(s: Seq<u8>, n: int) -> Seq<u8> {
    s.skip(floor(s.len() - n))
}

/// The chunk without its first `n` bytes.
pub open spec fn without_first(chunk: ChunkView, n: int) -> ChunkView {
    ChunkView { cursor: chunk.cursor + n, bytes: chunk.bytes.skip(n), ..chunk }
}

/// The chunk cut down to its first `n` bytes.
pub open spec fn only_first(chunk: ChunkView, n: int) -> ChunkView {
    ChunkView { bytes: chunk.bytes.take(n), ..chunk }
}

/// The chunks without their first `n` bytes.
pub open spec fn drop_front(chunks: Seq<ChunkView>, n: int) -> Seq<ChunkView>
    decreases chunks.len(),
{
    if chunks.len() == 0 {
        chunks
    } else if n >= chunks.first().bytes.len() {
        drop_front(chunks.drop_first(), n - chunks.first().bytes.len())
    } else {
        seq![without_first(chunks.first(), n)] + chunks.drop_first()
    }
}

/// The chunks cut down to their first `n` bytes.
pub open spec fn take_front(chunks: Seq<ChunkView>, n: int) -> Seq<ChunkView>
    decreases chunks.len(),
{
    if chunks.len() == 0 || n <= 0 {
        Seq::empty()
    } else if n >= chunks.first().bytes.len() {
        seq![chunks.first()] + take_front(
            chunks.drop_first(),
            n - chunks.first().bytes.len(),
        )
    } else {
        seq![only_first(chunks.first(), n)]
    }
}

/// The chunks of one console generation.
pub open spec fn of_generation(chunks: Seq<ChunkView>, generation: int) -> Seq<ChunkView>
    decreases chunks.len(),
{
    if chunks.len() == 0 {
        chunks
    } else if chunks.first().generation == generation {
        seq![chunks.first()] + of_generation(chunks.drop_first(), generation)
    } else {
        of_generation(chunks.drop_first(), generation)
    }
}

/// The cursor of the first byte of the chunks, or `end` where there is none.
pub open spec fn start_of(chunks: Seq<ChunkView>, end: int) -> int {
    if chunks.len() == 0 {
        end
    } else {
        chunks.first().cursor
    }
}

/// No chunk is empty, and each begins where the one before ends; the last ends at `end`.
pub open spec fn contiguous(chunks: Seq<ChunkView>, end: int) -> bool
    decreases chunks.len(),
{
    chunks.len() == 0 || {
        &&& chunks.first().bytes.len() > 0
        &&& chunks.first().cursor + chunks.first().bytes.len() == start_of(
            chunks.drop_first(),
            end,
        )
        &&& contiguous(chunks.drop_first(), end)
    }
}

/// The generations do not descend along the chunks.
pub open spec fn ascending(chunks: Seq<ChunkView>) -> bool {
    forall|i: int, k: int|
        #![trigger chunks[i], chunks[k]]
        0 <= i <= k < chunks.len() ==> chunks[i].generation <= chunks[k].generation
}

impl RingView {
    /// The capacity bounds what is held, and the chunks hold the bytes just before
    /// `next_cursor`, the generations one after the other and none later than the current one.
    pub open spec fn wf(self) -> bool {
        &&& 0 < self.capacity <= usize::MAX
        &&& 0 <= self.next_cursor <= u64::MAX
        &&& 0 <= self.generation <= u64::MAX
        &&& total(self.chunks) <= self.capacity
        &&& contiguous(self.chunks, self.next_cursor)
        &&& 0 <= start_of(self.chunks, self.next_cursor)
        &&& forall|i: int|
            0 <= i < self.chunks.len() ==> 0 <= (#[trigger] self.chunks[i]).generation
                <= self.generation
        &&& ascending(self.chunks)
    }

    /// A ring that has received nothing.
    pub open spec fn empty(capacity: int) -> RingView {
        RingView { capacity, next_cursor: 0, generation: 0, chunks: Seq::empty() }
    }

    /// The bytes held.
    pub open spec fn contents(self) -> Seq<u8> {
        flatten(self.chunks)
    }

    /// The cursor of the oldest byte held.
    pub open spec fn oldest(self) -> int {
        start_of(self.chunks, self.next_cursor)
    }

    /// The ring after a new console generation begins.
    pub open spec fn marked(self) -> RingView {
        RingView { generation: self.generation + 1, ..self }
    }

    /// The ring after `input` came: the oldest bytes make room, and of an input beyond the
    /// capacity only the end is kept.
    pub open spec fn appended(self, timestamp: SystemTime, input: Seq<u8>) -> RingView {
        if input.len() == 0 {
            self
        } else {
            let kept = tail(input, self.capacity);
            let next_cursor = self.next_cursor + input.len();
            RingView {
                next_cursor,
                chunks: drop_front(
                    self.chunks,
                    floor(total(self.chunks) + kept.len() - self.capacity),
                ).push(
                    ChunkView {
                        cursor: next_cursor - kept.len(),
                        generation: self.generation,
                        timestamp,
                        bytes: kept,
                    },
                ),
                ..self
            }
        }
    }

    /// The bytes from `cursor` on, at most `limit` of them. The snapshot is truncated where
    /// bytes from `cursor` on are gone or are left out.
    pub open spec fn snapshot_from(self, cursor: int, limit: int) -> SnapshotView {
        let start = greatest(cursor, self.oldest());
        let chunks = take_front(drop_front(self.chunks, start - self.oldest()), limit);
        SnapshotView {
            chunks,
            next_cursor: start + total(chunks),
            truncated: cursor < self.oldest() || start + total(chunks) < self.next_cursor,
        }
    }

    /// The last bytes of one console generation, at most `limit` of them.
    pub open spec fn snapshot_generation(self, generation: int, limit: int) -> SnapshotView {
        let held = of_generation(self.chunks, generation);
        let chunks = drop_front(held, floor(total(held) - limit));
        SnapshotView {
            chunks,
            next_cursor: start_of(chunks, self.next_cursor) + total(chunks),
            truncated: total(held) > limit,
        }
    }
}

proof fn total_nonnegative(chunks: Seq<ChunkView>)
    ensures
        total(chunks) >= 0,
    decreases chunks.len(),
{
    if chunks.len() > 0 {
        total_nonnegative(chunks.drop_first());
    }
}

proof fn flatten_len(chunks: Seq<ChunkView>)
    ensures
        flatten(chunks).len() == total(chunks),
    decreases chunks.len(),
{
    if chunks.len() > 0 {
        flatten_len(chunks.drop_first());
    }
}

proof fn total_push(chunks: Seq<ChunkView>, chunk: ChunkView)
    ensures
        total(chunks.push(chunk)) == total(chunks) + chunk.bytes.len(),
        flatten(chunks.push(chunk)) == flatten(chunks) + chunk.bytes,
    decreases chunks.len(),
{
    let longer = chunks.push(chunk);
    if chunks.len() == 0 {
        assert(longer.drop_first() == Seq::<ChunkView>::empty());
        assert(flatten(longer.drop_first()) == Seq::<u8>::empty());
        assert(flatten(longer) == chunk.bytes);
        assert(flatten(chunks) + chunk.bytes == chunk.bytes);
        assert(total(longer.drop_first()) == 0);
    } else {
        assert(longer.drop_first() == chunks.drop_first().push(chunk));
        assert(longer.first() == chunks.first());
        total_push(chunks.drop_first(), chunk);
        assert(flatten(longer) == flatten(chunks) + chunk.bytes);
    }
}

proof fn total_add(a: Seq<ChunkView>, b: Seq<ChunkView>)
    ensures
        total(a + b) == total(a) + total(b),
        flatten(a + b) == flatten(a) + flatten(b),
    decreases a.len(),
{
    if a.len() == 0 {
        assert(a + b == b);
        assert(flatten(a) + flatten(b) == flatten(b));
    } else {
        assert((a + b).first() == a.first());
        assert((a + b).drop_first() == a.drop_first() + b);
        total_add(a.drop_first(), b);
        assert(flatten(a + b) == flatten(a) + flatten(b));
    }
}

proof fn generation_drop_none(chunks: Seq<ChunkView>, end: int, generation: int)
    requires
        contiguous(chunks, end),
    ensures
        drop_front(of_generation(chunks, generation), 0) == of_generation(chunks, generation),
    decreases chunks.len(),
{
    if chunks.len() > 0 {
        let first = chunks.first();
        let more = of_generation(chunks.drop_first(), generation);
        generation_drop_none(chunks.drop_first(), end, generation);
        if first.generation == generation {
            let list = seq![first] + more;
            assert(list.first() == first);
            assert(list.drop_first() == more);
            assert(first.bytes.skip(0) == first.bytes);
            assert(without_first(first, 0) == first);
        }
    }
}

proof fn drop_none(chunks: Seq<ChunkView>, end: int)
    requires
        contiguous(chunks, end),
    ensures
        drop_front(chunks, 0) == chunks,
{
    if chunks.len() > 0 {
        assert(chunks.first().bytes.skip(0) == chunks.first().bytes);
        assert(without_first(chunks.first(), 0) == chunks.first());
        assert(seq![chunks.first()] + chunks.drop_first() == chunks);
    }
}

/// What is left without the first `n` bytes.
proof fn drop_front_properties(chunks: Seq<ChunkView>, n: int, end: int)
    requires
        contiguous(chunks, end),
        0 <= n,
    ensures
        total(drop_front(chunks, n)) == floor(total(chunks) - n),
        contiguous(drop_front(chunks, n), end),
        n <= total(chunks) ==> start_of(drop_front(chunks, n), end) == start_of(chunks, end) + n,
        n >= total(chunks) ==> drop_front(chunks, n).len() == 0,
        n <= total(chunks) ==> flatten(drop_front(chunks, n)) == flatten(chunks).skip(n),
        forall|i: int|
            0 <= i < drop_front(chunks, n).len() ==> exists|j: int|
                0 <= j < chunks.len() && (#[trigger] chunks[j]).generation == (
                #[trigger] drop_front(chunks, n)[i]).generation,
    decreases chunks.len(),
{
    flatten_len(chunks);
    total_nonnegative(chunks);
    if chunks.len() == 0 {
        assert(flatten(chunks).skip(0) == flatten(chunks));
    } else {
        let first = chunks.first();
        let rest = chunks.drop_first();
        total_nonnegative(rest);
        flatten_len(rest);
        if n >= first.bytes.len() {
            drop_front_properties(rest, n - first.bytes.len(), end);
            if n <= total(chunks) {
                assert(flatten(chunks).skip(n) == flatten(rest).skip(n - first.bytes.len()));
            }
            assert forall|i: int| 0 <= i < drop_front(chunks, n).len() implies exists|j: int|
                0 <= j < chunks.len() && (#[trigger] chunks[j]).generation == (
                #[trigger] drop_front(chunks, n)[i]).generation by {
                let j = choose|j: int|
                    0 <= j < rest.len() && (#[trigger] rest[j]).generation == drop_front(
                        rest,
                        n - first.bytes.len(),
                    )[i].generation;
                assert(chunks[j + 1] == rest[j]);
            }
        } else {
            let cut = without_first(first, n);
            let left = seq![cut] + rest;
            assert(left.first() == cut);
            assert(left.drop_first() == rest);
            assert(flatten(left) == flatten(chunks).skip(n));
            assert forall|i: int| 0 <= i < drop_front(chunks, n).len() implies exists|j: int|
                0 <= j < chunks.len() && (#[trigger] chunks[j]).generation == (
                #[trigger] drop_front(chunks, n)[i]).generation by {
                if i > 0 {
                    assert(left[i] == chunks[i]);
                } else {
                    assert(left[0].generation == chunks[0].generation);
                }
            }
        }
    }
}

/// The chunks left without the first `n` bytes are the last ones, each of its generation.
proof fn drop_front_generations(chunks: Seq<ChunkView>, n: int)
    ensures
        drop_front(chunks, n).len() <= chunks.len(),
        forall|i: int|
            0 <= i < drop_front(chunks, n).len() ==> (#[trigger] drop_front(
                chunks,
                n,
            )[i]).generation == chunks[i + chunks.len() - drop_front(chunks, n).len()].generation,
    decreases chunks.len(),
{
    if chunks.len() > 0 {
        let rest = chunks.drop_first();
        let left = drop_front(chunks, n);
        if n >= chunks.first().bytes.len() {
            drop_front_generations(rest, n - chunks.first().bytes.len());
            assert forall|i: int| 0 <= i < left.len() implies (#[trigger] left[i]).generation
                == chunks[i + chunks.len() - left.len()].generation by {
                assert(chunks[i + chunks.len() - left.len()] == rest[i + rest.len() - left.len()]);
            }
        } else {
            assert forall|i: int| 0 <= i < left.len() implies (#[trigger] left[i]).generation
                == chunks[i + chunks.len() - left.len()].generation by {
                if i > 0 {
                    assert(left[i] == rest[i - 1]);
                }
            }
        }
    }
}

/// Dropping bytes from the front and adding a chunk of no earlier generation keeps the
/// generations in order.
proof fn ascending_after(chunks: Seq<ChunkView>, n: int, chunk: ChunkView)
    requires
        ascending(chunks),
        forall|i: int|
            0 <= i < chunks.len() ==> (#[trigger] chunks[i]).generation <= chunk.generation,
    ensures
        ascending(drop_front(chunks, n).push(chunk)),
{
    let left = drop_front(chunks, n);
    let after = left.push(chunk);
    let gone = chunks.len() - left.len();
    drop_front_generations(chunks, n);
    assert forall|i: int, k: int|
        #![trigger after[i], after[k]]
        0 <= i <= k < after.len() implies after[i].generation <= after[k].generation by {
        if i < left.len() {
            assert(left[i].generation == chunks[i + gone].generation);
            if k < left.len() {
                assert(left[k].generation == chunks[k + gone].generation);
            }
        }
    }
}

/// What the first `n` bytes are.
proof fn take_front_properties(chunks: Seq<ChunkView>, n: int)
    requires
        0 <= n,
    ensures
        total(take_front(chunks, n)) == least(total(chunks), n),
        flatten(take_front(chunks, n)) == flatten(chunks).take(least(total(chunks), n)),
    decreases chunks.len(),
{
    flatten_len(chunks);
    total_nonnegative(chunks);
    if chunks.len() == 0 || n == 0 {
        assert(flatten(chunks).take(0) == Seq::<u8>::empty());
    } else {
        let first = chunks.first();
        let rest = chunks.drop_first();
        total_nonnegative(rest);
        flatten_len(rest);
        if n >= first.bytes.len() {
            let m = n - first.bytes.len();
            take_front_properties(rest, m);
            let kept = seq![first] + take_front(rest, m);
            assert(kept.first() == first);
            assert(kept.drop_first() == take_front(rest, m));
            assert(flatten(kept) == flatten(chunks).take(least(total(chunks), n)));
        } else {
            let kept = seq![only_first(first, n)];
            assert(kept.drop_first() == Seq::<ChunkView>::empty());
            assert(kept.first() == only_first(first, n));
            assert(total(kept.drop_first()) == 0);
            assert(flatten(kept.drop_first()) == Seq::<u8>::empty());
            assert(flatten(kept) == flatten(chunks).take(n));
        }
    }
}

proof fn contiguous_push(chunks: Seq<ChunkView>, end: int, chunk: ChunkView)
    requires
        contiguous(chunks, end),
        chunk.bytes.len() > 0,
        chunks.len() > 0 ==> chunk.cursor == end,
    ensures
        contiguous(chunks.push(chunk), chunk.cursor + chunk.bytes.len()),
        start_of(chunks.push(chunk), chunk.cursor + chunk.bytes.len()) == start_of(
            chunks,
            chunk.cursor,
        ),
    decreases chunks.len(),
{
    let longer = chunks.push(chunk);
    let after = chunk.cursor + chunk.bytes.len();
    if chunks.len() == 0 {
        assert(longer.drop_first() == Seq::<ChunkView>::empty());
        assert(contiguous(longer.drop_first(), after));
    } else {
        assert(longer.drop_first() == chunks.drop_first().push(chunk));
        assert(longer.first() == chunks.first());
        contiguous_push(chunks.drop_first(), end, chunk);
    }
}

proof fn start_plus_total(chunks: Seq<ChunkView>, end: int)
    requires
        contiguous(chunks, end),
    ensures
        start_of(chunks, end) + total(chunks) == end,
    decreases chunks.len(),
{
    if chunks.len() > 0 {
        start_plus_total(chunks.drop_first(), end);
    }
}

/// A generation holds no more than the ring, and its bytes come from within it.
proof fn generation_bounds(chunks: Seq<ChunkView>, end: int, generation: int, n: int)
    requires
        contiguous(chunks, end),
        0 <= n,
    ensures
        0 <= total(of_generation(chunks, generation)) <= total(chunks),
        ({
            let out = drop_front(of_generation(chunks, generation), n);
            0 <= total(out) && start_of(out, end) + total(out) <= end && start_of(chunks, end)
                <= start_of(out, end)
        }),
    decreases chunks.len(),
{
    start_plus_total(chunks, end);
    total_nonnegative(chunks);
    let held = of_generation(chunks, generation);
    if chunks.len() > 0 {
        let first = chunks.first();
        let rest = chunks.drop_first();
        start_plus_total(rest, end);
        total_nonnegative(rest);
        if first.generation == generation {
            let more = of_generation(rest, generation);
            assert(held.first() == first);
            assert(held.drop_first() == more);
            generation_bounds(rest, end, generation, 0);
            if n >= first.bytes.len() {
                generation_bounds(rest, end, generation, n - first.bytes.len());
            } else {
                let out = seq![without_first(first, n)] + more;
                assert(out.first() == without_first(first, n));
                assert(out.drop_first() == more);
            }
        } else {
            generation_bounds(rest, end, generation, n);
        }
    }
}

proof fn generation_push(chunks: Seq<ChunkView>, chunk: ChunkView, generation: int)
    ensures
        of_generation(chunks.push(chunk), generation) == if chunk.generation == generation {
            of_generation(chunks, generation).push(chunk)
        } else {
            of_generation(chunks, generation)
        },
    decreases chunks.len(),
{
    let longer = chunks.push(chunk);
    if chunks.len() == 0 {
        assert(longer.drop_first() == Seq::<ChunkView>::empty());
        assert(longer.first() == chunk);
        assert(of_generation(longer.drop_first(), generation) == Seq::<ChunkView>::empty());
        if chunk.generation == generation {
            assert(seq![chunk] + Seq::<ChunkView>::empty() == Seq::<ChunkView>::empty().push(
                chunk,
            ));
        }
    } else {
        assert(longer.drop_first() == chunks.drop_first().push(chunk));
        assert(longer.first() == chunks.first());
        generation_push(chunks.drop_first(), chunk, generation);
        let more = of_generation(chunks.drop_first(), generation);
        if chunks.first().generation == generation && chunk.generation == generation {
            assert(seq![chunks.first()] + more.push(chunk) == (seq![chunks.first()] + more).push(
                chunk,
            ));
        }
    }
}

impl Clone for SerialChunk {
    fn clone(&self) -> (copy: Self)
        ensures
            copy@ == self@,
    {
        SerialChunk {
            cursor: self.cursor,
            generation: self.generation,
            timestamp: self.timestamp,
            bytes: copy_bytes(self.bytes.as_slice()),
        }
    }
}

impl Clone for SerialSnapshot {
    fn clone(&self) -> (copy: Self)
        ensures
            copy@ == self@,
    {
        let mut chunks: Vec<SerialChunk> = Vec::new();
        let mut i: usize = 0;
        while i < self.chunks.len()
            invariant
                i <= self.chunks@.len(),
                chunk_views(chunks@) == chunk_views(self.chunks@.take(i as int)),
            decreases self.chunks@.len() - i,
        {
            let ghost before = chunks@;
            chunks.push(self.chunks[i].clone());
            i += 1;
            assert(chunk_views(chunks@) == chunk_views(before).push(self.chunks@[i - 1]@));
            assert(chunk_views(self.chunks@.take(i as int)) == chunk_views(
                self.chunks@.take(i - 1),
            ).push(self.chunks@[i - 1]@));
        }
        assert(self.chunks@.take(self.chunks@.len() as int) == self.chunks@);
        SerialSnapshot { chunks, next_cursor: self.next_cursor, truncated: self.truncated }
    }
}

impl View for SerialRing {
    type V = RingView;

    closed spec fn view(&self) -> RingView {
        RingView {
            capacity: self.capacity as int,
            next_cursor: self.next_cursor as int,
            generation: self.generation as int,
            chunks: chunk_views(self.chunks@),
        }
    }
}

impl SerialRing {
    /// The count of held bytes is right.
    pub closed spec fn counted(self) -> bool {
        self.bytes == total(self@.chunks)
    }

    /// The ring is valid.
    pub open spec fn wf(self) -> bool {
        self.counted() && self@.wf()
    }

    /// A ring that holds at most `capacity` bytes.
    pub fn new(capacity: usize) -> (ring: Self)
        requires
            capacity > 0,
        ensures
            ring.wf(),
            ring@ == RingView::empty(capacity as int),
    {
        let ring = SerialRing {
            capacity,
            bytes: 0,
            next_cursor: 0,
            generation: 0,
            chunks: VecDeque::new(),
        };
        assert(ring@.chunks == Seq::<ChunkView>::empty());
        ring
    }

    /// The current console generation.
    pub fn generation(&self) -> (generation: u64)
        ensures
            generation == self@.generation,
    {
        self.generation
    }

    /// The cursor of the next byte to come.
    pub fn next_cursor(&self) -> (cursor: u64)
        ensures
            cursor == self@.next_cursor,
    {
        self.next_cursor
    }

    /// Begins a new console generation and returns it.
    pub fn mark_generation(&mut self) -> (generation: u64)
        requires
            old(self).wf(),
            old(self)@.generation < u64::MAX,
        ensures
            final(self).wf(),
            final(self)@ == old(self)@.marked(),
            generation == final(self)@.generation,
    {
        self.generation += 1;
        self.generation
    }

    /// Drops the oldest bytes until at most `room` are held.
    fn make_room(&mut self, room: usize)
        requires
            old(self).wf(),
        ensures
            final(self).counted(),
            final(self)@ == (RingView {
                chunks: drop_front(
                    old(self)@.chunks,
                    floor(total(old(self)@.chunks) - room),
                ),
                ..old(self)@
            }),
    {
        let ghost before = self@;
        proof {
            drop_none(before.chunks, before.next_cursor);
            total_nonnegative(before.chunks);
        }
        while self.bytes > room
            invariant
                self.counted(),
                self@.capacity == before.capacity,
                self@.next_cursor == before.next_cursor,
                self@.generation == before.generation,
                contiguous(self@.chunks, before.next_cursor),
                self@.next_cursor <= u64::MAX,
                drop_front(before.chunks, floor(total(before.chunks) - room)) == drop_front(
                    self@.chunks,
                    floor(total(self@.chunks) - room),
                ),
                total(self@.chunks) >= 0,
            decreases self.bytes,
        {
            let ghost held = self@.chunks;
            let excess: usize = self.bytes - room;
            proof {
                start_plus_total(held, before.next_cursor);
                total_nonnegative(held.drop_first());
            }
            if let Some(mut front) = self.chunks.pop_front() {
                proof {
                    assert(held.first() == front@);
                    assert(self@.chunks == held.drop_first());
                    start_plus_total(held.drop_first(), before.next_cursor);
                }
                if excess < front.bytes.len() {
                    let ghost whole = front@;
                    let rest = front.bytes.split_off(excess);
                    front.bytes = rest;
                    front.cursor = front.cursor + excess as u64;
                    assert(front@ == without_first(whole, excess as int));
                    self.chunks.push_front(front);
                    self.bytes = self.bytes - excess;
                    assert(self@.chunks == seq![front@] + held.drop_first());
                    proof {
                        drop_front_properties(held, excess as int, before.next_cursor);
                        drop_none(self@.chunks, before.next_cursor);
                    }
                } else {
                    self.bytes = self.bytes - front.bytes.len();
                }
            }
        }
        proof {
            drop_none(self@.chunks, before.next_cursor);
        }
    }

    /// Records `input` and returns the cursor of its first byte.
    pub fn append(&mut self, timestamp: SystemTime, input: &[u8]) -> (cursor: u64)
        requires
            old(self).wf(),
            old(self)@.next_cursor + input@.len() <= u64::MAX,
        ensures
            final(self).wf(),
            final(self)@ == old(self)@.appended(timestamp, input@),
            cursor == old(self)@.next_cursor,
    {
        let ghost before = self@;
        proof {
            appended_is_wf(before, timestamp, input@);
        }
        let original_cursor = self.next_cursor;
        if input.len() == 0 {
            return original_cursor;
        }
        let skipped: usize = if input.len() > self.capacity {
            input.len() - self.capacity
        } else {
            0
        };
        let mut kept = copy_bytes(input);
        if skipped > 0 {
            kept = kept.split_off(skipped);
        }
        assert(kept@ == tail(input@, before.capacity));
        let room: usize = self.capacity - kept.len();
        self.make_room(room);
        let ghost left = self@.chunks;
        self.next_cursor = self.next_cursor + input.len() as u64;
        let chunk = SerialChunk {
            cursor: self.next_cursor - kept.len() as u64,
            generation: self.generation,
            timestamp,
            bytes: kept,
        };
        proof {
            total_push(left, chunk@);
            drop_front_properties(
                before.chunks,
                floor(total(before.chunks) - room),
                before.next_cursor,
            );
        }
        self.bytes = self.bytes + chunk.bytes.len();
        self.chunks.push_back(chunk);
        assert(self@.chunks == left.push(chunk@));
        original_cursor
    }

    /// The bytes from `cursor` on, at most `max_bytes` of them.
    pub fn snapshot_from(&self, cursor: u64, max_bytes: usize) -> (snapshot: SerialSnapshot)
        requires
            self.wf(),
        ensures
            snapshot@ == self@.snapshot_from(cursor as int, max_bytes as int),
    {
        let ghost ring = self@;
        let oldest: u64 = if self.chunks.len() == 0 {
            self.next_cursor
        } else {
            self.chunks[0].cursor
        };
        let start: u64 = if cursor < oldest {
            oldest
        } else {
            cursor
        };
        let mut remaining: usize = max_bytes;
        let mut returned: u64 = 0;
        let mut chunks: Vec<SerialChunk> = Vec::new();
        let mut i: usize = 0;
        let ghost wanted = take_front(drop_front(ring.chunks, start - oldest), max_bytes as int);
        proof {
            assert(oldest == ring.oldest());
            assert(start == greatest(cursor as int, ring.oldest()));
            assert(ring.chunks.skip(0) == ring.chunks);
            assert(chunk_views(chunks@) + wanted == wanted);
            drop_front_properties(ring.chunks, start - oldest, ring.next_cursor);
            take_front_properties(
                drop_front(ring.chunks, start - oldest),
                max_bytes as int,
            );
            start_plus_total(ring.chunks, ring.next_cursor);
            total_nonnegative(ring.chunks);
            assert(start <= ring.next_cursor ==> start + total(wanted) <= ring.next_cursor);
            assert(start >= ring.next_cursor ==> total(wanted) == 0);
            assert(total(chunk_views(chunks@)) == 0);
        }
        while i < self.chunks.len()
            invariant
                i <= self.chunks@.len(),
                ring == self@,
                ring.wf(),
                start + total(wanted) <= u64::MAX,
                contiguous(ring.chunks.skip(i as int), ring.next_cursor),
                wanted == chunk_views(chunks@) + take_front(
                    drop_front(
                        ring.chunks.skip(i as int),
                        floor(start - start_of(ring.chunks.skip(i as int), ring.next_cursor)),
                    ),
                    remaining as int,
                ),
                returned == total(chunk_views(chunks@)),
                returned <= total(wanted),
            decreases self.chunks@.len() - i,
        {
            let chunk = &self.chunks[i];
            let ghost here = ring.chunks.skip(i as int);
            let ghost rest = ring.chunks.skip(i + 1);
            let ghost skip = floor(start - start_of(here, ring.next_cursor));
            let ghost skip_rest = floor(start - start_of(rest, ring.next_cursor));
            proof {
                assert(here.first() == chunk@);
                assert(here.drop_first() == rest);
                start_plus_total(here, ring.next_cursor);
                total_nonnegative(rest);
            }
            let offset: u64 = if start > chunk.cursor {
                start - chunk.cursor
            } else {
                0
            };
            if offset >= chunk.bytes.len() as u64 {
                assert(skip_rest == skip - chunk.bytes@.len());
            } else {
                proof {
                    drop_none(rest, ring.next_cursor);
                    let left = seq![without_first(chunk@, skip)] + rest;
                    assert(drop_front(here, skip) == left);
                    assert(left.first() == without_first(chunk@, skip));
                    assert(left.drop_first() == rest);
                    assert(skip_rest == 0);
                }
                if remaining > 0 {
                    let from: usize = offset as usize;
                    let available: usize = chunk.bytes.len() - from;
                    let len: usize = if available < remaining {
                        available
                    } else {
                        remaining
                    };
                    let bytes = copy_bytes(&chunk.bytes[from..from + len]);
                    let piece = SerialChunk {
                        cursor: chunk.cursor + offset,
                        generation: chunk.generation,
                        timestamp: chunk.timestamp,
                        bytes,
                    };
                    let ghost before = chunk_views(chunks@);
                    let ghost more = take_front(rest, remaining - len);
                    proof {
                        let cut = without_first(chunk@, skip);
                        if len < available {
                            assert(piece@.bytes == cut.bytes.take(len as int));
                            assert(piece@ == only_first(cut, len as int));
                            assert(more == Seq::<ChunkView>::empty());
                            assert(wanted == before.push(piece@) + more);
                        } else {
                            assert(piece@.bytes == cut.bytes);
                            assert(piece@ == cut);
                            assert(wanted == before.push(piece@) + more);
                        }
                        total_push(before, piece@);
                        total_add(before.push(piece@), more);
                        total_nonnegative(more);
                        total_nonnegative(before);
                    }
                    chunks.push(piece);
                    assert(chunk_views(chunks@) == before.push(piece@));
                    returned = returned + len as u64;
                    remaining = remaining - len;
                }
            }
            i += 1;
        }
        proof {
            assert(ring.chunks.skip(ring.chunks.len() as int) == Seq::<ChunkView>::empty());
            assert(wanted == chunk_views(chunks@));
        }
        SerialSnapshot {
            chunks,
            next_cursor: start + returned,
            truncated: cursor < oldest || start + returned < self.next_cursor,
        }
    }

    /// The last bytes of one console generation, at most `max_bytes` of them.
    pub fn snapshot_generation(&self, generation: u64, max_bytes: usize) -> (snapshot:
        SerialSnapshot)
        requires
            self.wf(),
        ensures
            snapshot@ == self@.snapshot_generation(generation as int, max_bytes as int),
    {
        let ghost ring = self@;
        let ghost held = of_generation(ring.chunks, generation as int);
        let mut available: usize = 0;
        let mut i: usize = 0;
        proof {
            assert(ring.chunks.skip(0) == ring.chunks);
            generation_bounds(ring.chunks, ring.next_cursor, generation as int, 0);
        }
        while i < self.chunks.len()
            invariant
                i <= self.chunks@.len(),
                ring == self@,
                ring.wf(),
                held == of_generation(ring.chunks, generation as int),
                total(held) <= usize::MAX,
                available + total(of_generation(ring.chunks.skip(i as int), generation as int))
                    == total(held),
            decreases self.chunks@.len() - i,
        {
            let ghost here = ring.chunks.skip(i as int);
            let ghost rest = of_generation(ring.chunks.skip(i + 1), generation as int);
            proof {
                assert(here.first() == self.chunks@[i as int]@);
                assert(here.drop_first() == ring.chunks.skip(i + 1));
                total_nonnegative(rest);
            }
            if self.chunks[i].generation == generation {
                proof {
                    let list = seq![here.first()] + rest;
                    assert(list.first() == here.first());
                    assert(list.drop_first() == rest);
                }
                available = available + self.chunks[i].bytes.len();
            }
            i += 1;
        }
        assert(ring.chunks.skip(ring.chunks.len() as int) == Seq::<ChunkView>::empty());
        assert(available == total(held));
        let skip: usize = if available > max_bytes {
            available - max_bytes
        } else {
            0
        };
        let ghost wanted = drop_front(held, skip as int);
        let mut to_skip: usize = skip;
        let mut returned: u64 = 0;
        let mut chunks: Vec<SerialChunk> = Vec::new();
        proof {
            generation_bounds(ring.chunks, ring.next_cursor, generation as int, skip as int);
            start_plus_total(ring.chunks, ring.next_cursor);
            assert(chunk_views(chunks@) + wanted == wanted);
            assert(total(chunk_views(chunks@)) == 0);
        }
        let mut k: usize = 0;
        while k < self.chunks.len()
            invariant
                k <= self.chunks@.len(),
                ring == self@,
                ring.wf(),
                total(wanted) <= u64::MAX,
                contiguous(ring.chunks.skip(k as int), ring.next_cursor),
                wanted == chunk_views(chunks@) + drop_front(
                    of_generation(ring.chunks.skip(k as int), generation as int),
                    to_skip as int,
                ),
                chunks@.len() > 0 ==> to_skip == 0,
                returned == total(chunk_views(chunks@)),
                returned <= total(wanted),
            decreases self.chunks@.len() - k,
        {
            let chunk = &self.chunks[k];
            let ghost here = ring.chunks.skip(k as int);
            let ghost rest = of_generation(ring.chunks.skip(k + 1), generation as int);
            proof {
                assert(here.first() == chunk@);
                assert(here.drop_first() == ring.chunks.skip(k + 1));
                start_plus_total(here, ring.next_cursor);
                total_nonnegative(here.drop_first());
            }
            if chunk.generation == generation {
                proof {
                    let list = seq![chunk@] + rest;
                    assert(list.first() == chunk@);
                    assert(list.drop_first() == rest);
                }
                if to_skip >= chunk.bytes.len() {
                    to_skip = to_skip - chunk.bytes.len();
                } else {
                    let bytes = copy_bytes(&chunk.bytes[to_skip..chunk.bytes.len()]);
                    let piece = SerialChunk {
                        cursor: chunk.cursor + to_skip as u64,
                        generation,
                        timestamp: chunk.timestamp,
                        bytes,
                    };
                    let ghost before = chunk_views(chunks@);
                    proof {
                        let cut = without_first(chunk@, to_skip as int);
                        assert(piece@.bytes == cut.bytes);
                        assert(piece@ == cut);
                        generation_drop_none(
                            ring.chunks.skip(k + 1),
                            ring.next_cursor,
                            generation as int,
                        );
                        assert(before + (seq![cut] + rest) == before.push(cut) + rest);
                        total_push(before, piece@);
                        total_add(before.push(piece@), rest);
                        total_nonnegative(rest);
                        total_nonnegative(before);
                    }
                    returned = returned + piece.bytes.len() as u64;
                    chunks.push(piece);
                    assert(chunk_views(chunks@) == before.push(piece@));
                    to_skip = 0;
                }
            }
            k += 1;
        }
        proof {
            assert(ring.chunks.skip(ring.chunks.len() as int) == Seq::<ChunkView>::empty());
            assert(wanted == chunk_views(chunks@));
        }
        let start: u64 = if chunks.len() == 0 {
            self.next_cursor
        } else {
            assert(wanted.first() == chunks@[0]@);
            chunks[0].cursor
        };
        SerialSnapshot { chunks, next_cursor: start + returned, truncated: available > max_bytes }
    }
}

/// Appending keeps a ring valid.
pub proof fn appended_is_wf(ring: RingView, timestamp: SystemTime, input: Seq<u8>)
    requires
        ring.wf(),
        ring.next_cursor + input.len() <= u64::MAX,
    ensures
        ring.appended(timestamp, input).wf(),
{
    if input.len() > 0 {
        let kept = tail(input, ring.capacity);
        let n = floor(total(ring.chunks) + kept.len() - ring.capacity);
        let left = drop_front(ring.chunks, n);
        let after = ring.appended(timestamp, input);
        drop_front_properties(ring.chunks, n, ring.next_cursor);
        start_plus_total(ring.chunks, ring.next_cursor);
        total_nonnegative(ring.chunks);
        start_plus_total(left, ring.next_cursor);
        total_nonnegative(left);
        contiguous_push(left, ring.next_cursor, after.chunks.last());
        total_push(left, after.chunks.last());
        ascending_after(ring.chunks, n, after.chunks.last());
    }
}

impl SerialSnapshot {
    /// The bytes of the snapshot, in order.
    pub fn bytes(&self) -> (bytes: Vec<u8>)
        ensures
            bytes@ == flatten(self@.chunks),
    {
        let mut bytes: Vec<u8> = Vec::new();
        let mut i: usize = 0;
        let ghost chunks = self@.chunks;
        assert(chunks.skip(0) == chunks);
        assert(bytes@ + flatten(chunks) == flatten(chunks));
        while i < self.chunks.len()
            invariant
                i <= self.chunks@.len(),
                chunks == chunk_views(self.chunks@),
                bytes@ + flatten(chunks.skip(i as int)) == flatten(chunks),
            decreases self.chunks@.len() - i,
        {
            let mut piece = copy_bytes(self.chunks[i].bytes.as_slice());
            proof {
                let here = chunks.skip(i as int);
                assert(here.first().bytes == piece@);
                assert(here.drop_first() == chunks.skip(i + 1));
                assert(bytes@ + flatten(here) == (bytes@ + piece@) + flatten(chunks.skip(i + 1)));
            }
            bytes.append(&mut piece);
            i += 1;
        }
        assert(chunks.skip(chunks.len() as int) == Seq::<ChunkView>::empty());
        assert(bytes@ + flatten(Seq::<ChunkView>::empty()) == bytes@);
        bytes
    }
}

/// A ring holds the most recent bytes that it received, as many as its capacity allows, and its
/// cursor counts every byte received.
pub proof fn append_keeps_the_most_recent(ring: RingView, timestamp: SystemTime, input: Seq<u8>)
    requires
        ring.wf(),
    ensures
        ring.appended(timestamp, input).contents() == tail(
            ring.contents() + input,
            ring.capacity,
        ),
        ring.appended(timestamp, input).contents().len() <= ring.capacity,
        ring.appended(timestamp, input).next_cursor == ring.next_cursor + input.len(),
{
    flatten_len(ring.chunks);
    if input.len() == 0 {
        assert(ring.contents() + input == ring.contents());
        assert(ring.contents().skip(0) == ring.contents());
    } else {
        let kept = tail(input, ring.capacity);
        let n = floor(total(ring.chunks) + kept.len() - ring.capacity);
        let left = drop_front(ring.chunks, n);
        let chunk = ring.appended(timestamp, input).chunks.last();
        drop_front_properties(ring.chunks, n, ring.next_cursor);
        total_push(left, chunk);
        assert(ring.appended(timestamp, input).chunks == left.push(chunk));
        assert(flatten(left) + kept == tail(ring.contents() + input, ring.capacity));
    }
}

/// A snapshot is a window on the bytes held: it begins at the cursor asked for, or at the oldest
/// byte held where that is later, and has as many bytes as the limit allows. It is truncated
/// exactly where bytes from the cursor on are missing from it.
pub proof fn snapshot_is_a_window(ring: RingView, cursor: int, limit: int)
    requires
        ring.wf(),
        0 <= limit,
    ensures
        ({
            let snapshot = ring.snapshot_from(cursor, limit);
            let start = greatest(cursor, ring.oldest());
            let from = least(start - ring.oldest(), ring.contents().len() as int);
            let to = least(from + limit, ring.contents().len() as int);
            &&& flatten(snapshot.chunks) == ring.contents().subrange(from, to)
            &&& flatten(snapshot.chunks).len() <= limit
            &&& snapshot.next_cursor == start + (to - from)
            &&& snapshot.truncated <==> cursor < ring.oldest() || snapshot.next_cursor
                < ring.next_cursor
        }),
{
    let start = greatest(cursor, ring.oldest());
    let n = start - ring.oldest();
    let rest = drop_front(ring.chunks, n);
    flatten_len(ring.chunks);
    start_plus_total(ring.chunks, ring.next_cursor);
    drop_front_properties(ring.chunks, n, ring.next_cursor);
    take_front_properties(rest, limit);
    flatten_len(take_front(rest, limit));
    let from = least(n, ring.contents().len() as int);
    let to = least(from + limit, ring.contents().len() as int);
    if n <= total(ring.chunks) {
        assert(flatten(rest) == ring.contents().skip(n));
    } else {
        assert(rest == Seq::<ChunkView>::empty());
        assert(flatten(rest) == Seq::<u8>::empty());
    }
    assert(flatten(take_front(rest, limit)) == ring.contents().subrange(from, to));
}

/// The bytes held are the last ones before the next cursor.
pub proof fn cursor_ends_the_contents(ring: RingView)
    requires
        ring.wf(),
    ensures
        ring.oldest() + ring.contents().len() == ring.next_cursor,
{
    flatten_len(ring.chunks);
    start_plus_total(ring.chunks, ring.next_cursor);
}

/// Bytes appended are read back, whole and in order, from the cursor that the ring had before.
pub proof fn appended_bytes_read_back(
    ring: RingView,
    timestamp: SystemTime,
    input: Seq<u8>,
    limit: int,
)
    requires
        ring.wf(),
        ring.next_cursor + input.len() <= u64::MAX,
        input.len() <= ring.capacity,
        input.len() <= limit,
    ensures
        ({
            let snapshot = ring.appended(timestamp, input).snapshot_from(ring.next_cursor, limit);
            &&& flatten(snapshot.chunks) == input
            &&& !snapshot.truncated
            &&& snapshot.next_cursor == ring.next_cursor + input.len()
        }),
{
    let after = ring.appended(timestamp, input);
    appended_is_wf(ring, timestamp, input);
    append_keeps_the_most_recent(ring, timestamp, input);
    snapshot_is_a_window(after, ring.next_cursor, limit);
    flatten_len(after.chunks);
    flatten_len(ring.chunks);
    start_plus_total(after.chunks, after.next_cursor);
    start_plus_total(ring.chunks, ring.next_cursor);
    let from = ring.next_cursor - after.oldest();
    assert(after.contents().subrange(from, after.contents().len() as int) == input);
}

/// A capture resumed at the cursor where another ended continues it: the two together are the
/// capture of both lengths.
pub proof fn captures_concatenate(ring: RingView, cursor: int, first: int, second: int)
    requires
        ring.wf(),
        0 <= first,
        0 <= second,
    ensures
        ({
            let one = ring.snapshot_from(cursor, first);
            let two = ring.snapshot_from(one.next_cursor, second);
            let both = ring.snapshot_from(cursor, first + second);
            &&& flatten(one.chunks) + flatten(two.chunks) == flatten(both.chunks)
            &&& two.next_cursor == both.next_cursor
        }),
{
    let one = ring.snapshot_from(cursor, first);
    snapshot_is_a_window(ring, cursor, first);
    snapshot_is_a_window(ring, one.next_cursor, second);
    snapshot_is_a_window(ring, cursor, first + second);
    flatten_len(ring.chunks);
    start_plus_total(ring.chunks, ring.next_cursor);
    let two = ring.snapshot_from(one.next_cursor, second);
    let both = ring.snapshot_from(cursor, first + second);
    assert(flatten(one.chunks) + flatten(two.chunks) == flatten(both.chunks));
}

proof fn generation_chunks(chunks: Seq<ChunkView>, generation: int)
    ensures
        forall|i: int|
            0 <= i < of_generation(chunks, generation).len() ==> (#[trigger] of_generation(
                chunks,
                generation,
            )[i]).generation == generation,
    decreases chunks.len(),
{
    if chunks.len() > 0 {
        let more = of_generation(chunks.drop_first(), generation);
        let held = of_generation(chunks, generation);
        generation_chunks(chunks.drop_first(), generation);
        assert forall|i: int| 0 <= i < held.len() implies (#[trigger] held[i]).generation
            == generation by {
            if chunks.first().generation == generation {
                if i > 0 {
                    assert(held[i] == more[i - 1]);
                }
            } else {
                assert(held[i] == more[i]);
            }
        }
    }
}

proof fn dropping_keeps_generation(chunks: Seq<ChunkView>, n: int, generation: int)
    requires
        forall|i: int| 0 <= i < chunks.len() ==> (#[trigger] chunks[i]).generation == generation,
    ensures
        forall|i: int|
            0 <= i < drop_front(chunks, n).len() ==> (#[trigger] drop_front(
                chunks,
                n,
            )[i]).generation == generation,
    decreases chunks.len(),
{
    if chunks.len() > 0 {
        assert(chunks[0].generation == generation);
        if n >= chunks.first().bytes.len() {
            assert forall|i: int| 0 <= i < chunks.drop_first().len() implies (
            #[trigger] chunks.drop_first()[i]).generation == generation by {
                assert(chunks.drop_first()[i] == chunks[i + 1]);
            }
            let m = n - chunks.first().bytes.len();
            dropping_keeps_generation(chunks.drop_first(), m, generation);
            let left = drop_front(chunks, n);
            assert(left == drop_front(chunks.drop_first(), m));
            assert forall|i: int| 0 <= i < left.len() implies (#[trigger] left[i]).generation
                == generation by {
                assert(left[i] == drop_front(chunks.drop_first(), m)[i]);
            }
        } else {
            let left = drop_front(chunks, n);
            assert forall|i: int| 0 <= i < left.len() implies (#[trigger] left[i]).generation
                == generation by {
                if i > 0 {
                    assert(left[i] == chunks[i]);
                }
            }
        }
    }
}

/// A snapshot of one console generation holds bytes of no other.
pub proof fn generation_snapshot_is_pure(ring: RingView, generation: int, limit: int)
    ensures
        forall|i: int|
            0 <= i < ring.snapshot_generation(generation, limit).chunks.len() ==> (
            #[trigger] ring.snapshot_generation(generation, limit).chunks[i]).generation
                == generation,
{
    let held = of_generation(ring.chunks, generation);
    generation_chunks(ring.chunks, generation);
    dropping_keeps_generation(held, floor(total(held) - limit), generation);
}

proof fn later_generation_is_empty(chunks: Seq<ChunkView>, generation: int)
    requires
        forall|i: int| 0 <= i < chunks.len() ==> (#[trigger] chunks[i]).generation < generation,
    ensures
        of_generation(chunks, generation) == Seq::<ChunkView>::empty(),
    decreases chunks.len(),
{
    if chunks.len() > 0 {
        assert(chunks[0].generation < generation);
        assert forall|i: int| 0 <= i < chunks.drop_first().len() implies (
        #[trigger] chunks.drop_first()[i]).generation < generation by {
            assert(chunks.drop_first()[i] == chunks[i + 1]);
        }
        later_generation_is_empty(chunks.drop_first(), generation);
    }
}

/// Until more comes, the generation after a boundary is empty.
pub proof fn boundary_hides_the_past(ring: RingView, limit: int)
    requires
        ring.wf(),
        0 <= limit,
    ensures
        ring.marked().generation == ring.generation + 1,
        flatten(ring.marked().snapshot_generation(ring.generation + 1, limit).chunks) == Seq::<
            u8,
        >::empty(),
{
    later_generation_is_empty(ring.chunks, ring.generation + 1);
    assert(total(Seq::<ChunkView>::empty()) == 0);
    assert(flatten(Seq::<ChunkView>::empty()) == Seq::<u8>::empty());
}

/// After one input the generation that began at a boundary holds the end of that input and
/// nothing from before.
pub proof fn generation_holds_what_came_after(
    ring: RingView,
    timestamp: SystemTime,
    input: Seq<u8>,
    limit: int,
)
    requires
        ring.wf(),
        0 <= limit,
    ensures
        flatten(
            ring.marked().appended(timestamp, input).snapshot_generation(
                ring.generation + 1,
                limit,
            ).chunks,
        ) == tail(input, least(ring.capacity, limit)),
{
    let fresh = ring.generation + 1;
    let marked = ring.marked();
    later_generation_is_empty(ring.chunks, fresh);
    assert(total(Seq::<ChunkView>::empty()) == 0);
    assert(flatten(Seq::<ChunkView>::empty()) == Seq::<u8>::empty());
    if input.len() == 0 {
        assert(tail(input, least(ring.capacity, limit)) == Seq::<u8>::empty());
    } else {
        let kept = tail(input, ring.capacity);
        let n = floor(total(ring.chunks) + kept.len() - ring.capacity);
        let left = drop_front(ring.chunks, n);
        let chunk = marked.appended(timestamp, input).chunks.last();
        drop_front_properties(ring.chunks, n, ring.next_cursor);
        assert forall|i: int| 0 <= i < left.len() implies (#[trigger] left[i]).generation
            < fresh by {
            let j = choose|j: int|
                0 <= j < ring.chunks.len() && (#[trigger] ring.chunks[j]).generation
                    == left[i].generation;
            assert(ring.chunks[j].generation <= ring.generation);
        }
        later_generation_is_empty(left, fresh);
        generation_push(left, chunk, fresh);
        let held = seq![chunk];
        assert(Seq::<ChunkView>::empty().push(chunk) == held);
        assert(held.first() == chunk);
        assert(held.drop_first() == Seq::<ChunkView>::empty());
        assert(total(held) == kept.len());
        let skip = floor(kept.len() - limit);
        let out = drop_front(held, skip);
        if skip < kept.len() {
            let cut = without_first(chunk, skip);
            assert(out == seq![cut] + Seq::<ChunkView>::empty());
            assert(out.first() == cut);
            assert(out.drop_first() == Seq::<ChunkView>::empty());
            assert(flatten(out) == cut.bytes);
        } else {
            assert(drop_front(Seq::<ChunkView>::empty(), 0) == Seq::<ChunkView>::empty());
            assert(out == Seq::<ChunkView>::empty());
        }
        assert(flatten(out) == tail(input, least(ring.capacity, limit)));
    }
}

proof fn ascending_rest(chunks: Seq<ChunkView>)
    requires
        ascending(chunks),
        chunks.len() > 0,
    ensures
        ascending(chunks.drop_first()),
        forall|i: int|
            0 <= i < chunks.drop_first().len() ==> (
            #[trigger] chunks.drop_first()[i]).generation >= chunks.first().generation,
{
    let rest = chunks.drop_first();
    assert forall|i: int, k: int|
        #![trigger rest[i], rest[k]]
        0 <= i <= k < rest.len() implies rest[i].generation <= rest[k].generation by {
        assert(rest[i] == chunks[i + 1] && rest[k] == chunks[k + 1]);
    }
    assert forall|i: int| 0 <= i < rest.len() implies (#[trigger] rest[i]).generation
        >= chunks.first().generation by {
        assert(rest[i] == chunks[i + 1] && chunks.first() == chunks[0]);
    }
}

/// Chunks that are all of one generation are that generation.
proof fn single_generation(chunks: Seq<ChunkView>, generation: int)
    requires
        forall|i: int| 0 <= i < chunks.len() ==> (#[trigger] chunks[i]).generation == generation,
    ensures
        of_generation(chunks, generation) == chunks,
    decreases chunks.len(),
{
    if chunks.len() > 0 {
        let rest = chunks.drop_first();
        assert forall|i: int| 0 <= i < rest.len() implies (#[trigger] rest[i]).generation
            == generation by {
            assert(rest[i] == chunks[i + 1]);
        }
        single_generation(rest, generation);
        assert(chunks[0].generation == generation);
        assert(seq![chunks.first()] + rest == chunks);
    }
}

/// The latest generation stands at the end of the chunks: it ends where they end, and its bytes
/// are their last ones.
proof fn latest_generation_is_the_end(chunks: Seq<ChunkView>, end: int, generation: int)
    requires
        contiguous(chunks, end),
        ascending(chunks),
        forall|i: int| 0 <= i < chunks.len() ==> (#[trigger] chunks[i]).generation <= generation,
    ensures
        contiguous(of_generation(chunks, generation), end),
        0 <= total(of_generation(chunks, generation)) <= total(chunks),
        flatten(of_generation(chunks, generation)) == tail(
            flatten(chunks),
            total(of_generation(chunks, generation)),
        ),
    decreases chunks.len(),
{
    flatten_len(chunks);
    total_nonnegative(chunks);
    if chunks.len() == 0 {
        assert(flatten(chunks).skip(0) == flatten(chunks));
    } else {
        let first = chunks.first();
        let rest = chunks.drop_first();
        ascending_rest(chunks);
        assert(chunks[0] == first);
        if first.generation == generation {
            assert forall|i: int| 0 <= i < chunks.len() implies (#[trigger] chunks[i]).generation
                == generation by {
                assert(chunks[0].generation <= chunks[i].generation);
            }
            single_generation(chunks, generation);
            assert(flatten(chunks).skip(0) == flatten(chunks));
        } else {
            assert forall|i: int| 0 <= i < rest.len() implies (#[trigger] rest[i]).generation
                <= generation by {
                assert(rest[i] == chunks[i + 1]);
            }
            latest_generation_is_the_end(rest, end, generation);
            flatten_len(rest);
            let n = total(of_generation(chunks, generation));
            assert(tail(flatten(chunks), n) == tail(flatten(rest), n));
        }
    }
}

/// Dropping bytes from the front takes the earlier generations first.
proof fn latest_generation_goes_last(
    chunks: Seq<ChunkView>,
    end: int,
    generation: int,
    n: int,
)
    requires
        contiguous(chunks, end),
        ascending(chunks),
        forall|i: int| 0 <= i < chunks.len() ==> (#[trigger] chunks[i]).generation <= generation,
        0 <= n,
    ensures
        total(of_generation(drop_front(chunks, n), generation)) == least(
            total(of_generation(chunks, generation)),
            floor(total(chunks) - n),
        ),
    decreases chunks.len(),
{
    drop_front_properties(chunks, n, end);
    total_nonnegative(chunks);
    if chunks.len() > 0 {
        let first = chunks.first();
        let rest = chunks.drop_first();
        let left = drop_front(chunks, n);
        ascending_rest(chunks);
        assert(chunks[0] == first);
        total_nonnegative(rest);
        if first.generation == generation {
            assert forall|i: int| 0 <= i < chunks.len() implies (#[trigger] chunks[i]).generation
                == generation by {
                assert(chunks[0].generation <= chunks[i].generation);
            }
            single_generation(chunks, generation);
            dropping_keeps_generation(chunks, n, generation);
            single_generation(left, generation);
        } else {
            assert forall|i: int| 0 <= i < rest.len() implies (#[trigger] rest[i]).generation
                <= generation by {
                assert(rest[i] == chunks[i + 1]);
            }
            latest_generation_is_the_end(rest, end, generation);
            if n >= first.bytes.len() {
                latest_generation_goes_last(rest, end, generation, n - first.bytes.len());
            } else {
                assert(left.first().generation == first.generation);
                assert(left.drop_first() == rest);
            }
        }
    } else {
        assert(total(of_generation(chunks, generation)) == 0);
    }
}

/// The cursor just past the last byte of some chunks.
pub open spec fn end_of(chunks: Seq<ChunkView>) -> int {
    chunks.last().cursor + chunks.last().bytes.len()
}

proof fn contiguous_end(chunks: Seq<ChunkView>, end: int)
    requires
        contiguous(chunks, end),
        chunks.len() > 0,
    ensures
        end_of(chunks) == end,
    decreases chunks.len(),
{
    let rest = chunks.drop_first();
    if rest.len() > 0 {
        contiguous_end(rest, end);
        assert(rest.last() == chunks.last());
    } else {
        assert(chunks.last() == chunks.first());
    }
}

proof fn generation_is_contiguous(chunks: Seq<ChunkView>, end: int, generation: int)
    requires
        contiguous(chunks, end),
        ascending(chunks),
    ensures
        of_generation(chunks, generation).len() > 0 ==> contiguous(
            of_generation(chunks, generation),
            end_of(of_generation(chunks, generation)),
        ),
    decreases chunks.len(),
{
    let held = of_generation(chunks, generation);
    if chunks.len() > 0 {
        let first = chunks.first();
        let rest = chunks.drop_first();
        let more = of_generation(rest, generation);
        ascending_rest(chunks);
        generation_is_contiguous(rest, end, generation);
        if first.generation == generation {
            assert(held.first() == first);
            assert(held.drop_first() == more);
            if more.len() == 0 {
                assert(held.last() == first);
                assert(contiguous(more, end_of(held)));
            } else {
                assert(held.last() == more.last());
                if rest.first().generation != generation {
                    assert(rest[0].generation > generation);
                    later_generations_hold_none(rest, generation);
                }
                assert(more.first() == rest.first());
            }
        }
    }
}

proof fn later_generations_hold_none(chunks: Seq<ChunkView>, generation: int)
    requires
        ascending(chunks),
        chunks.len() > 0 ==> chunks[0].generation > generation,
    ensures
        of_generation(chunks, generation).len() == 0,
    decreases chunks.len(),
{
    if chunks.len() > 0 {
        ascending_rest(chunks);
        let rest = chunks.drop_first();
        if rest.len() > 0 {
            assert(rest[0].generation >= chunks.first().generation);
        }
        later_generations_hold_none(rest, generation);
    }
}

/// The bytes of one generation are one run of cursors, and a snapshot that returns any of them
/// ends just past the last. A snapshot of the current generation ends where the ring ends.
pub proof fn generation_is_one_run(ring: RingView, generation: int, limit: int)
    requires
        ring.wf(),
        0 <= limit,
    ensures
        ({
            let held = of_generation(ring.chunks, generation);
            let snapshot = ring.snapshot_generation(generation, limit);
            &&& held.len() > 0 ==> contiguous(held, end_of(held))
            &&& snapshot.chunks.len() > 0 ==> held.len() > 0 && snapshot.next_cursor == end_of(
                held,
            )
            &&& generation == ring.generation ==> snapshot.next_cursor == ring.next_cursor
        }),
{
    let held = of_generation(ring.chunks, generation);
    let n = floor(total(held) - limit);
    let out = drop_front(held, n);
    generation_is_contiguous(ring.chunks, ring.next_cursor, generation);
    if held.len() > 0 {
        drop_front_properties(held, n, end_of(held));
        start_plus_total(out, end_of(held));
    }
    if generation == ring.generation {
        latest_generation_is_the_end(ring.chunks, ring.next_cursor, generation);
        drop_front_properties(held, n, ring.next_cursor);
        start_plus_total(out, ring.next_cursor);
    }
}

/// One input and when it came.
pub struct Arrival {
    pub timestamp: SystemTime,
    pub input: Seq<u8>,
}

/// The ring after some inputs.
pub open spec fn after_arrivals(ring: RingView, arrivals: Seq<Arrival>) -> RingView
    decreases arrivals.len(),
{
    if arrivals.len() == 0 {
        ring
    } else {
        let last = arrivals.last();
        after_arrivals(ring, arrivals.drop_last()).appended(last.timestamp, last.input)
    }
}

/// All the bytes of some inputs, in order.
pub open spec fn received(arrivals: Seq<Arrival>) -> Seq<u8>
    decreases arrivals.len(),
{
    if arrivals.len() == 0 {
        Seq::empty()
    } else {
        received(arrivals.drop_last()) + arrivals.last().input
    }
}

/// A valid ring in which nothing came yet since the current generation began.
pub open spec fn begins_generation(ring: RingView) -> bool {
    &&& ring.wf()
    &&& forall|i: int|
        0 <= i < ring.chunks.len() ==> (#[trigger] ring.chunks[i]).generation < ring.generation
}

/// A boundary begins a generation, and so does a ring that has received nothing.
pub proof fn boundaries_begin_generations(ring: RingView, capacity: int)
    requires
        ring.wf(),
        ring.generation < u64::MAX,
        0 < capacity <= usize::MAX,
    ensures
        begins_generation(ring.marked()),
        begins_generation(RingView::empty(capacity)),
{
    assert(total(Seq::<ChunkView>::empty()) == 0);
}

/// What inputs since the beginning of a generation leave in the ring.
proof fn arrivals_fill_the_generation(ring: RingView, arrivals: Seq<Arrival>)
    requires
        begins_generation(ring),
        ring.next_cursor + received(arrivals).len() <= u64::MAX,
    ensures
        ({
            let after = after_arrivals(ring, arrivals);
            &&& after.wf()
            &&& after.generation == ring.generation
            &&& after.capacity == ring.capacity
            &&& after.next_cursor == ring.next_cursor + received(arrivals).len()
            &&& after.contents() == tail(ring.contents() + received(arrivals), ring.capacity)
            &&& total(of_generation(after.chunks, ring.generation)) == least(
                received(arrivals).len() as int,
                ring.capacity,
            )
        }),
    decreases arrivals.len(),
{
    let generation = ring.generation;
    if arrivals.len() == 0 {
        flatten_len(ring.chunks);
        later_generation_is_empty(ring.chunks, generation);
        assert(total(Seq::<ChunkView>::empty()) == 0);
        assert(ring.contents() + received(arrivals) == ring.contents());
        assert(ring.contents().skip(0) == ring.contents());
    } else {
        let earlier = arrivals.drop_last();
        let last = arrivals.last();
        let before = after_arrivals(ring, earlier);
        arrivals_fill_the_generation(ring, earlier);
        append_keeps_the_most_recent(before, last.timestamp, last.input);
        appended_is_wf(before, last.timestamp, last.input);
        tails_concatenate(
            ring.contents() + received(earlier),
            last.input,
            ring.capacity,
        );
        assert((ring.contents() + received(earlier)) + last.input == ring.contents() + received(
            arrivals,
        ));
        one_more_arrival(before, last.timestamp, last.input);
    }
}

proof fn tails_concatenate(a: Seq<u8>, b: Seq<u8>, n: int)
    requires
        0 <= n,
    ensures
        tail(tail(a, n) + b, n) == tail(a + b, n),
{
    assert(tail(tail(a, n) + b, n) =~= tail(a + b, n));
}

/// How much of the current generation is held after one more input.
proof fn one_more_arrival(ring: RingView, timestamp: SystemTime, input: Seq<u8>)
    requires
        ring.wf(),
    ensures
        total(of_generation(ring.appended(timestamp, input).chunks, ring.generation)) == least(
            total(of_generation(ring.chunks, ring.generation)) + input.len(),
            ring.capacity,
        ),
{
    let held = of_generation(ring.chunks, ring.generation);
    latest_generation_is_the_end(ring.chunks, ring.next_cursor, ring.generation);
    if input.len() > 0 {
        let kept = tail(input, ring.capacity);
        let n = floor(total(ring.chunks) + kept.len() - ring.capacity);
        let left = drop_front(ring.chunks, n);
        let chunk = ring.appended(timestamp, input).chunks.last();
        latest_generation_goes_last(ring.chunks, ring.next_cursor, ring.generation, n);
        generation_push(left, chunk, ring.generation);
        total_push(of_generation(left, ring.generation), chunk);
    }
}

/// Whatever came since a generation began, in however many inputs, a snapshot of that generation
/// holds the last bytes of it, as many as the ring's capacity and the limit allow, and nothing
/// from before. It ends where the ring ends, and it is truncated exactly where the limit leaves
/// out bytes that the ring holds.
pub proof fn generation_holds_all_since_its_beginning(
    ring: RingView,
    arrivals: Seq<Arrival>,
    limit: int,
)
    requires
        begins_generation(ring),
        ring.next_cursor + received(arrivals).len() <= u64::MAX,
        0 <= limit,
    ensures
        ({
            let after = after_arrivals(ring, arrivals);
            let snapshot = after.snapshot_generation(after.generation, limit);
            &&& after.generation == ring.generation
            &&& flatten(snapshot.chunks) == tail(received(arrivals), least(ring.capacity, limit))
            &&& snapshot.next_cursor == after.next_cursor
            &&& snapshot.truncated <==> least(received(arrivals).len() as int, ring.capacity)
                > limit
        }),
{
    let after = after_arrivals(ring, arrivals);
    let all = received(arrivals);
    let held = of_generation(after.chunks, ring.generation);
    arrivals_fill_the_generation(ring, arrivals);
    latest_generation_is_the_end(after.chunks, after.next_cursor, ring.generation);
    generation_is_one_run(after, ring.generation, limit);
    flatten_len(held);
    drop_front_properties(held, floor(total(held) - limit), after.next_cursor);
    assert(flatten(held) == tail(all, ring.capacity));
    assert(flatten(held).skip(floor(total(held) - limit)) == tail(
        all,
        least(ring.capacity, limit),
    ));
}

/// What happens to a ring: an input comes, or a console generation begins.
pub enum Happening {
    Input { timestamp: SystemTime, input: Seq<u8> },
    Boundary,
}

/// A ring of the capacity after all that happened to it.
pub open spec fn after_history(capacity: int, history: Seq<Happening>) -> RingView
    decreases history.len(),
{
    if history.len() == 0 {
        RingView::empty(capacity)
    } else {
        let before = after_history(capacity, history.drop_last());
        match history.last() {
            Happening::Input { timestamp, input } => before.appended(timestamp, input),
            Happening::Boundary => before.marked(),
        }
    }
}

/// All the bytes that ever came, in order.
pub open spec fn ever_received(history: Seq<Happening>) -> Seq<u8>
    decreases history.len(),
{
    if history.len() == 0 {
        Seq::empty()
    } else {
        match history.last() {
            Happening::Input { timestamp, input } => ever_received(history.drop_last()) + input,
            Happening::Boundary => ever_received(history.drop_last()),
        }
    }
}

/// A ring always holds the newest bytes of all that ever came, as many as its capacity, and fewer
/// only where fewer ever came. A snapshot of everything returns exactly these, whatever
/// generations began in between. The cursors and generations have to fit their counters.
pub proof fn history_keeps_the_newest_bytes(capacity: int, history: Seq<Happening>, limit: int)
    requires
        0 < capacity <= usize::MAX,
        ever_received(history).len() <= u64::MAX,
        history.len() <= u64::MAX,
        capacity <= limit,
    ensures
        ({
            let ring = after_history(capacity, history);
            let all = ever_received(history);
            &&& ring.wf()
            &&& ring.capacity == capacity
            &&& ring.next_cursor == all.len()
            &&& ring.contents() == all.skip(all.len() - least(capacity, all.len() as int))
            &&& flatten(ring.snapshot_from(0, limit).chunks) == ring.contents()
        }),
{
    history_is_kept(capacity, history);
    let ring = after_history(capacity, history);
    let all = ever_received(history);
    assert(all.skip(all.len() - least(capacity, all.len() as int)) == tail(all, capacity));
    snapshot_is_a_window(ring, 0, limit);
    flatten_len(ring.chunks);
    let n = ring.contents().len() as int;
    assert(ring.contents().subrange(0, n) == ring.contents());
}

proof fn history_is_kept(capacity: int, history: Seq<Happening>)
    requires
        0 < capacity <= usize::MAX,
        ever_received(history).len() <= u64::MAX,
        history.len() <= u64::MAX,
    ensures
        ({
            let ring = after_history(capacity, history);
            &&& ring.wf()
            &&& ring.capacity == capacity
            &&& 0 <= ring.generation <= history.len()
            &&& ring.next_cursor == ever_received(history).len()
            &&& ring.contents() == tail(ever_received(history), capacity)
        }),
    decreases history.len(),
{
    if history.len() == 0 {
        assert(total(Seq::<ChunkView>::empty()) == 0);
        assert(flatten(Seq::<ChunkView>::empty()) == Seq::<u8>::empty());
        assert(tail(Seq::<u8>::empty(), capacity) == Seq::<u8>::empty());
    } else {
        let earlier = history.drop_last();
        let before = after_history(capacity, earlier);
        if let Happening::Input { timestamp, input } = history.last() {
            assert(ever_received(history).len() == ever_received(earlier).len() + input.len());
            history_is_kept(capacity, earlier);
            append_keeps_the_most_recent(before, timestamp, input);
            appended_is_wf(before, timestamp, input);
            tails_concatenate(ever_received(earlier), input, capacity);
        } else {
            history_is_kept(capacity, earlier);
        }
    }
}

} // verus!
