//! A response body that is produced while it is sent: the transport pulls bytes, and a
//! producer is asked for the next batch only when the batch before it has gone out. No
//! more than one batch is held in memory.

use crate::http::{internal, Headers, HttpError, Response, ResponseView, Status};
use crate::text::lowercase;
use vstd::prelude::*;
use vstd::slice::*;
use vstd::string::*;
use vstd::utf8::*;

verus! {

/// Where a producer writes its bytes.
pub struct ReadForWriteWriter {
    buffer: Vec<u8>,
}

impl View for ReadForWriteWriter {
    type V = Seq<u8>;

    closed spec fn view(&self) -> Seq<u8> {
        self.buffer@
    }
}

impl ReadForWriteWriter {
    /// A writer that holds nothing yet.
    pub fn new() -> (w: ReadForWriteWriter)
        ensures
            w@ == Seq::<u8>::empty(),
    {
        ReadForWriteWriter { buffer: Vec::new() }
    }

    /// Takes all of `buf`, and says how many bytes it took.
    pub fn write(&mut self, buf: &[u8]) -> (n: usize)
        ensures
            final(self)@ == old(self)@ + buf@,
            n == buf@.len(),
    {
        let mut tail = slice_to_vec(buf);
        self.buffer.append(&mut tail);
        buf.len()
    }

    /// Nothing is held back, so there is nothing to do.
    pub fn flush(&mut self)
        ensures
            final(self)@ == old(self)@,
    {
    }

    /// Takes all of `buf`.
    pub fn write_all(&mut self, buf: &[u8])
        ensures
            final(self)@ == old(self)@ + buf@,
    {
        let mut tail = slice_to_vec(buf);
        self.buffer.append(&mut tail);
    }

    /// The bytes written so far.
    pub fn into_bytes(self) -> (bytes: Vec<u8>)
        ensures
            bytes@ == self@,
    {
        self.buffer
    }
}

/// What a stream is at one moment: the bytes that are buffered and not yet sent, and
/// the state from which the producer goes on; no state means that it has finished.
pub struct StreamView<O> {
    pub pending: Seq<u8>,
    pub state: Option<O>,
}

/// What a step of the producer hands back: the next state, no state at the end, or the
/// message of a failure; and the writer with what the step wrote.
pub type StepOutcome<O> = (Result<Option<O>, String>, ReadForWriteWriter);

/// The stream after a step. A failure ends the stream; its message goes out behind what
/// the step wrote before it failed.
pub open spec fn after_step<O>(outcome: StepOutcome<O>) -> StreamView<O> {
    match outcome.0 {
        Ok(next) => StreamView { pending: outcome.1@, state: next },
        Err(message) => StreamView {
            pending: outcome.1@ + encode_utf8(message@),
            state: None,
        },
    }
}

/// The stream as a pull finds it once the producer has been asked where that was due.
/// A stream with bytes buffered, or without a state, is left as it is. Else the producer
/// makes a step from the state, on an empty writer, and where that step leaves nothing
/// buffered and a state to go on from, the next step, for up to `steps` steps in all.
pub open spec fn refilled<O, U: Fn(O, ReadForWriteWriter) -> StepOutcome<O>>(
    before: StreamView<O>,
    step: U,
    steps: nat,
    ready: StreamView<O>,
) -> bool
    decreases steps,
{
    if before.pending.len() > 0 || before.state is None || steps == 0 {
        ready == before
    } else {
        exists|w: ReadForWriteWriter, outcome: StepOutcome<O>|
            w@.len() == 0 && call_ensures(step, (before.state->0, w), outcome) && refilled(
                after_step(outcome),
                step,
                (steps - 1) as nat,
                ready,
            )
    }
}

/// How many bytes a pull with room for `room` bytes takes out of `pending`.
pub open spec fn portion(pending: Seq<u8>, room: nat) -> nat {
    if pending.len() <= room {
        pending.len()
    } else {
        room
    }
}

/// What one pull with room for `room` bytes does to a stream: the producer is asked
/// where that is due, `bytes` are taken off the front of what is then buffered, and
/// `after` is what is left.
pub open spec fn pulled<O, U: Fn(O, ReadForWriteWriter) -> StepOutcome<O>>(
    before: StreamView<O>,
    step: U,
    room: nat,
    bytes: Seq<u8>,
    after: StreamView<O>,
) -> bool {
    exists|ready: StreamView<O>| #[trigger]
        refilled(before, step, usize::MAX as nat, ready) && bytes == ready.pending.take(
            portion(ready.pending, room) as int,
        ) && after == (StreamView {
            pending: ready.pending.skip(portion(ready.pending, room) as int),
            state: ready.state,
        })
}

/// A stream that is pulled from. Whoever holds it drives it alone.
#[verifier::reject_recursive_types(O)]
#[verifier::reject_recursive_types(U)]
pub struct ReadForWrite<O, U: Fn(O, ReadForWriteWriter) -> StepOutcome<O>> {
    buffer: Vec<u8>,
    position: usize,
    add_more_data: U,
    state: Option<O>,
}

impl<O, U: Fn(O, ReadForWriteWriter) -> StepOutcome<O>> ReadForWrite<O, U> {
    /// The stream is sound: what has been sent is part of the buffer, and the producer
    /// can be asked for a step from any state on an empty writer. `build_response`
    /// makes such a stream and every pull keeps it so.
    pub closed spec fn wf(&self) -> bool {
        &&& self.position <= self.buffer@.len()
        &&& forall|s: O, w: ReadForWriteWriter|
            w@.len() == 0 ==> call_requires(self.add_more_data, (s, w))
    }

    pub closed spec fn view(&self) -> StreamView<O> {
        StreamView { pending: self.buffer@.skip(self.position as int), state: self.state }
    }

    /// The producer's step function.
    pub closed spec fn producer(&self) -> U {
        self.add_more_data
    }

    /// Whether everything has been sent and the producer has finished.
    pub fn is_finished(&self) -> (done: bool)
        requires
            self.wf(),
        ensures
            done == (self@.pending.len() == 0 && self@.state is None),
    {
        self.position == self.buffer.len() && self.state.is_none()
    }

    /// One pull: fills `buf` from the front with the next bytes of the stream, and says
    /// how many there are. Where nothing is buffered, the producer is asked for steps
    /// until one of them leaves bytes in the buffer or ends the stream. So 0 comes back
    /// at the end of the stream, and before it only where `buf` has no room or
    /// `usize::MAX` steps in a row wrote nothing.
    pub fn read(&mut self, buf: &mut [u8]) -> (n: usize)
        requires
            old(self).wf(),
        ensures
            final(self).wf(),
            final(self).producer() == old(self).producer(),
            final(buf)@.len() == old(buf)@.len(),
            old(self)@.pending.len() == 0 && old(self)@.state is None ==> n == 0 && final(self)@
                == old(self)@ && final(buf)@ == old(buf)@,
            n <= old(buf)@.len(),
            pulled(
                old(self)@,
                old(self).producer(),
                old(buf)@.len(),
                final(buf)@.take(n as int),
                final(self)@,
            ),
            final(buf)@.skip(n as int) == old(buf)@.skip(n as int),
    {
        let ghost before = self@;
        let mut steps: usize = 0;
        while self.position == self.buffer.len() && self.state.is_some() && steps < usize::MAX
            invariant
                self.wf(),
                self.add_more_data == old(self).add_more_data,
                steps <= usize::MAX,
                before == old(self)@,
                steps == 0 ==> self@ == before,
                forall|ready: StreamView<O>| #[trigger]
                    refilled(self@, self.add_more_data, (usize::MAX - steps) as nat, ready)
                        ==> refilled(before, self.add_more_data, usize::MAX as nat, ready),
            decreases usize::MAX - steps,
        {
            let ghost found = self@;
            let state = self.state.take().unwrap();
            let writer = ReadForWriteWriter::new();
            let ghost w0 = writer;
            let outcome = (self.add_more_data)(state, writer);
            let ghost out0 = outcome;
            let (result, filled) = outcome;
            let mut bytes = filled.into_bytes();
            let next = match result {
                Ok(next) => next,
                Err(message) => {
                    let mut trailer = slice_to_vec(message.as_str().as_bytes());
                    bytes.append(&mut trailer);
                    None
                },
            };
            self.buffer = bytes;
            self.position = 0;
            self.state = next;
            proof {
                assert(self.buffer@.skip(0) == self.buffer@);
                assert(self@ == after_step(out0));
                assert(found.pending.len() == 0 && found.state is Some);
                assert forall|ready: StreamView<O>| #[trigger]
                    refilled(
                        self@,
                        self.add_more_data,
                        (usize::MAX - (steps + 1)) as nat,
                        ready,
                    ) implies refilled(before, self.add_more_data, usize::MAX as nat, ready) by {
                    assert(w0@.len() == 0 && call_ensures(
                        self.add_more_data,
                        (found.state->0, w0),
                        out0,
                    ));
                    assert(refilled(
                        found,
                        self.add_more_data,
                        (usize::MAX - steps) as nat,
                        ready,
                    ));
                }
            }
            steps = steps + 1;
        }
        proof {
            assert(refilled(self@, self.add_more_data, (usize::MAX - steps) as nat, self@));
        }
        let ghost ready = self@;
        let available: usize = self.buffer.len() - self.position;
        let n: usize = if available <= buf.len() {
            available
        } else {
            buf.len()
        };
        let start: usize = self.position;
        let mut i: usize = 0;
        while i < n
            invariant
                i <= n,
                n <= buf@.len(),
                start == self.position,
                start + n <= self.buffer@.len(),
                self.buffer@.len() <= usize::MAX,
                self@ == ready,
                self.wf(),
                self.add_more_data == old(self).add_more_data,
                buf@.len() == old(buf)@.len(),
                forall|j: int| 0 <= j < i ==> buf@[j] == self.buffer@[start + j],
                forall|j: int| i <= j < buf@.len() ==> buf@[j] == old(buf)@[j],
            decreases n - i,
        {
            buf[i] = self.buffer[start + i];
            i = i + 1;
        }
        proof {
            assert(buf@ =~= ready.pending.take(n as int) + old(buf)@.skip(n as int));
            assert(self.buffer@.skip(start + n) == ready.pending.skip(n as int));
        }
        self.position = start + n;
        proof {
            if before.pending.len() == 0 && before.state is None {
                assert(ready.pending.skip(0) == ready.pending);
                assert(buf@ =~= old(buf)@);
            }
            assert(refilled(before, old(self).producer(), usize::MAX as nat, ready));
            assert(n == portion(ready.pending, old(buf)@.len()));
            assert(self@ == (StreamView { pending: ready.pending.skip(n as int), state: ready.state }));
            assert(buf@.take(n as int) =~= ready.pending.take(n as int));
            assert(buf@.skip(n as int) =~= old(buf)@.skip(n as int));
        }
        n
    }
}

/// All the bytes that go out while a stream is pulled with room for `room` bytes each
/// time, until it has ended: `pending` is what is buffered, and `script` lists what each
/// further step of the producer leaves in the buffer, the last step being the one that
/// ends the stream.
pub open spec fn drained(pending: Seq<u8>, script: Seq<Seq<u8>>, room: nat) -> Seq<u8>
    decreases script.len(), pending.len(),
{
    if room == 0 {
        Seq::empty()
    } else if pending.len() > 0 {
        let n = portion(pending, room);
        pending.take(n as int) + drained(pending.skip(n as int), script, room)
    } else if script.len() > 0 {
        drained(script[0], script.drop_first(), room)
    } else {
        Seq::empty()
    }
}

/// The chunks of `script`, one after the other.
pub open spec fn concat(script: Seq<Seq<u8>>) -> Seq<u8>
    decreases script.len(),
{
    if script.len() == 0 {
        Seq::empty()
    } else {
        script[0] + concat(script.drop_first())
    }
}

/// One pull takes its bytes off the front: what a stream delivers from the moment a pull
/// finds it is what that pull brings, followed by what the stream delivers from the
/// moment the pull leaves it.
pub proof fn lemma_pull_is_first_step(ready: Seq<u8>, script: Seq<Seq<u8>>, room: nat)
    requires
        room >= 1,
    ensures
        drained(ready, script, room) == ready.take(portion(ready, room) as int) + drained(
            ready.skip(portion(ready, room) as int),
            script,
            room,
        ),
{
    if ready.len() == 0 {
        assert(ready.skip(0) == ready);
        assert(ready.take(0) + drained(ready, script, room) == drained(ready, script, room));
    }
}

/// Pulling a stream to its end delivers what was buffered and then everything that the
/// producer wrote, in order and once, whatever room the pulls offer.
pub proof fn lemma_drained_is_everything(pending: Seq<u8>, script: Seq<Seq<u8>>, room: nat)
    requires
        room >= 1,
    ensures
        drained(pending, script, room) == pending + concat(script),
    decreases script.len(), pending.len(),
{
    if pending.len() > 0 {
        let n = portion(pending, room);
        lemma_drained_is_everything(pending.skip(n as int), script, room);
        assert(pending.take(n as int) + (pending.skip(n as int) + concat(script)) =~= pending
            + concat(script));
    } else if script.len() > 0 {
        lemma_drained_is_everything(script[0], script.drop_first(), room);
        assert(pending + concat(script) =~= script[0] + concat(script.drop_first()));
    } else {
        assert(pending + concat(script) =~= Seq::<u8>::empty());
    }
}

/// What a stream delivers does not depend on the size of the pulls: pulls of one byte
/// and pulls of any other size bring the same bytes.
pub proof fn lemma_chunk_size_independent(
    pending: Seq<u8>,
    script: Seq<Seq<u8>>,
    room: nat,
    other_room: nat,
)
    requires
        room >= 1,
        other_room >= 1,
    ensures
        drained(pending, script, room) == drained(pending, script, other_room),
{
    lemma_drained_is_everything(pending, script, room);
    lemma_drained_is_everything(pending, script, other_room);
}

/// The producer is deterministic: from one state, on an empty writer, its step leaves
/// the stream in one way only.
pub open spec fn deterministic<O, U: Fn(O, ReadForWriteWriter) -> StepOutcome<O>>(step: U) -> bool {
    forall|s: O, w: ReadForWriteWriter, v: ReadForWriteWriter, a: StepOutcome<O>, b: StepOutcome<O>|
        w@.len() == 0 && v@.len() == 0 && #[trigger] call_ensures(step, (s, w), a)
            && #[trigger] call_ensures(step, (s, v), b) ==> after_step(a) == after_step(b)
}

/// A run of pulls, one after the other: pull `i` has room for `rooms[i]` bytes, at least
/// one, finds the stream as `views[i]`, brings `chunks[i]` and leaves `views[i + 1]`.
pub open spec fn pulls<O, U: Fn(O, ReadForWriteWriter) -> StepOutcome<O>>(
    step: U,
    rooms: Seq<nat>,
    views: Seq<StreamView<O>>,
    chunks: Seq<Seq<u8>>,
) -> bool {
    &&& views.len() == rooms.len() + 1
    &&& chunks.len() == rooms.len()
    &&& forall|i: int|
        #![trigger rooms[i]]
        #![trigger chunks[i]]
        0 <= i < rooms.len() ==> rooms[i] >= 1 && pulled(
            views[i],
            step,
            rooms[i],
            chunks[i],
            views[i + 1],
        )
}

/// The run goes up to the first pull that brings nothing, and no further.
pub open spec fn to_the_end(chunks: Seq<Seq<u8>>) -> bool {
    &&& chunks.len() >= 1
    &&& chunks.last().len() == 0
    &&& forall|i: int| 0 <= i < chunks.len() - 1 ==> (#[trigger] chunks[i]).len() > 0
}

/// Chunks in two parts are the chunks of the first part and then those of the second.
pub proof fn lemma_concat_split(chunks: Seq<Seq<u8>>, j: int)
    requires
        0 <= j <= chunks.len(),
    ensures
        concat(chunks) == concat(chunks.take(j)) + concat(chunks.skip(j)),
    decreases j,
{
    if j == 0 {
        assert(chunks.skip(0) == chunks);
        assert(concat(chunks.take(0)) + concat(chunks) == concat(chunks));
    } else {
        let rest = chunks.drop_first();
        lemma_concat_split(rest, j - 1);
        assert(chunks.take(j).drop_first() == rest.take(j - 1));
        assert(rest.skip(j - 1) == chunks.skip(j));
        assert(chunks.take(j)[0] == chunks[0]);
        assert(chunks[0] + (concat(rest.take(j - 1)) + concat(rest.skip(j - 1))) == (chunks[0]
            + concat(rest.take(j - 1))) + concat(rest.skip(j - 1)));
    }
}

/// What follows pull `j` of a run to the end is a run to the end.
proof fn lemma_rest_of_run<O, U: Fn(O, ReadForWriteWriter) -> StepOutcome<O>>(
    step: U,
    rooms: Seq<nat>,
    views: Seq<StreamView<O>>,
    chunks: Seq<Seq<u8>>,
    j: int,
)
    requires
        pulls(step, rooms, views, chunks),
        to_the_end(chunks),
        0 <= j < chunks.len(),
    ensures
        pulls(step, rooms.skip(j), views.skip(j), chunks.skip(j)),
        to_the_end(chunks.skip(j)),
        chunks.skip(j).len() == chunks.len() - j,
        views.skip(j)[0] == views[j],
{
    let r = rooms.skip(j);
    let v = views.skip(j);
    let c = chunks.skip(j);
    assert forall|i: int|
        #![trigger r[i]]
        #![trigger c[i]]
        0 <= i < r.len() implies r[i] >= 1 && pulled(v[i], step, r[i], c[i], v[i + 1]) by {
        let at = i + j;
        assert(pulled(views[at], step, rooms[at], chunks[at], views[at + 1]));
        assert(c[i] == chunks[at]);
        assert(v[i] == views[at] && v[i + 1] == views[at + 1] && r[i] == rooms[at]);
    }
    assert forall|i: int| 0 <= i < c.len() - 1 implies (#[trigger] c[i]).len() > 0 by {
        assert(c[i] == chunks[i + j]);
    }
    assert(c.last() == chunks.last());
    assert(v.len() == r.len() + 1);
    assert(c.len() == r.len());
}

/// With a deterministic producer a pull finds the stream in one way only.
proof fn lemma_refill_is_determined<O, U: Fn(O, ReadForWriteWriter) -> StepOutcome<O>>(
    before: StreamView<O>,
    step: U,
    steps: nat,
    one: StreamView<O>,
    other: StreamView<O>,
)
    requires
        deterministic(step),
        refilled(before, step, steps, one),
        refilled(before, step, steps, other),
    ensures
        one == other,
    decreases steps,
{
    if before.pending.len() > 0 || before.state is None || steps == 0 {
    } else {
        let (w, a) = choose|w: ReadForWriteWriter, a: StepOutcome<O>|
            w@.len() == 0 && call_ensures(step, (before.state->0, w), a) && refilled(
                after_step(a),
                step,
                (steps - 1) as nat,
                one,
            );
        let (v, b) = choose|v: ReadForWriteWriter, b: StepOutcome<O>|
            v@.len() == 0 && call_ensures(step, (before.state->0, v), b) && refilled(
                after_step(b),
                step,
                (steps - 1) as nat,
                other,
            );
        assert(after_step(a) == after_step(b));
        lemma_refill_is_determined(after_step(a), step, (steps - 1) as nat, one, other);
    }
}

/// What is buffered goes out first: a run to the end reaches, at the pull that is handed
/// back, the stream with nothing buffered and the producer where it was, and the pulls
/// before that one bring what was buffered.
proof fn lemma_buffer_goes_out_first<O, U: Fn(O, ReadForWriteWriter) -> StepOutcome<O>>(
    step: U,
    rooms: Seq<nat>,
    views: Seq<StreamView<O>>,
    chunks: Seq<Seq<u8>>,
) -> (j: int)
    requires
        pulls(step, rooms, views, chunks),
        to_the_end(chunks),
    ensures
        0 <= j < chunks.len(),
        views[j] == (StreamView { pending: Seq::<u8>::empty(), state: views[0].state }),
        concat(chunks.take(j)) == views[0].pending,
    decreases chunks.len(),
{
    let found = views[0];
    if found.pending.len() == 0 {
        assert(found.pending =~= Seq::<u8>::empty());
        assert(chunks.take(0) =~= Seq::<Seq<u8>>::empty());
        0
    } else {
        assert(pulled(found, step, rooms[0], chunks[0], views[1]));
        let n = portion(found.pending, rooms[0]) as int;
        assert(chunks[0] == found.pending.take(n));
        assert(chunks[0].len() > 0);
        lemma_rest_of_run(step, rooms, views, chunks, 1);
        let k = lemma_buffer_goes_out_first(step, rooms.skip(1), views.skip(1), chunks.skip(1));
        assert(views.skip(1)[k] == views[k + 1]);
        assert(chunks.take(k + 1).drop_first() == chunks.skip(1).take(k));
        assert(chunks.take(k + 1)[0] == chunks[0]);
        assert(found.pending.take(n) + found.pending.skip(n) == found.pending);
        k + 1
    }
}

/// Two runs to the end that start where nothing is buffered bring the same bytes.
proof fn lemma_same_from_empty<O, U: Fn(O, ReadForWriteWriter) -> StepOutcome<O>>(
    step: U,
    rooms: Seq<nat>,
    views: Seq<StreamView<O>>,
    chunks: Seq<Seq<u8>>,
    other_rooms: Seq<nat>,
    other_views: Seq<StreamView<O>>,
    other_chunks: Seq<Seq<u8>>,
)
    requires
        deterministic(step),
        pulls(step, rooms, views, chunks),
        to_the_end(chunks),
        pulls(step, other_rooms, other_views, other_chunks),
        to_the_end(other_chunks),
        views[0] == other_views[0],
        views[0].pending.len() == 0,
    ensures
        concat(chunks) == concat(other_chunks),
    decreases chunks.len() + other_chunks.len(),
{
    let found = views[0];
    assert(pulled(found, step, rooms[0], chunks[0], views[1]));
    assert(pulled(found, step, other_rooms[0], other_chunks[0], other_views[1]));
    let ready = choose|ready: StreamView<O>| #[trigger]
        refilled(found, step, usize::MAX as nat, ready) && chunks[0] == ready.pending.take(
            portion(ready.pending, rooms[0]) as int,
        ) && views[1] == (StreamView {
            pending: ready.pending.skip(portion(ready.pending, rooms[0]) as int),
            state: ready.state,
        });
    let other_ready = choose|ready: StreamView<O>| #[trigger]
        refilled(found, step, usize::MAX as nat, ready) && other_chunks[0] == ready.pending.take(
            portion(ready.pending, other_rooms[0]) as int,
        ) && other_views[1] == (StreamView {
            pending: ready.pending.skip(portion(ready.pending, other_rooms[0]) as int),
            state: ready.state,
        });
    lemma_refill_is_determined(found, step, usize::MAX as nat, ready, other_ready);
    let n = portion(ready.pending, rooms[0]) as int;
    let m = portion(ready.pending, other_rooms[0]) as int;
    lemma_concat_split(chunks, 1);
    lemma_concat_split(other_chunks, 1);
    assert(concat(chunks.take(1).drop_first()) =~= Seq::<u8>::empty());
    assert(concat(other_chunks.take(1).drop_first()) =~= Seq::<u8>::empty());
    assert(concat(chunks.take(1)) =~= chunks[0]);
    assert(concat(other_chunks.take(1)) =~= other_chunks[0]);
    if ready.pending.len() == 0 {
        assert(chunks.len() == 1 && other_chunks.len() == 1);
        assert(chunks.skip(1) =~= Seq::<Seq<u8>>::empty());
        assert(other_chunks.skip(1) =~= Seq::<Seq<u8>>::empty());
        assert(chunks[0] =~= other_chunks[0]);
    } else {
        assert(chunks[0].len() > 0 && other_chunks[0].len() > 0);
        lemma_rest_of_run(step, rooms, views, chunks, 1);
        lemma_rest_of_run(step, other_rooms, other_views, other_chunks, 1);
        let (r, v, c) = (rooms.skip(1), views.skip(1), chunks.skip(1));
        let (or, ov, oc) = (other_rooms.skip(1), other_views.skip(1), other_chunks.skip(1));
        let j = lemma_buffer_goes_out_first(step, r, v, c);
        let k = lemma_buffer_goes_out_first(step, or, ov, oc);
        lemma_rest_of_run(step, r, v, c, j);
        lemma_rest_of_run(step, or, ov, oc, k);
        lemma_same_from_empty(
            step,
            r.skip(j),
            v.skip(j),
            c.skip(j),
            or.skip(k),
            ov.skip(k),
            oc.skip(k),
        );
        lemma_concat_split(c, j);
        lemma_concat_split(oc, k);
        assert(ready.pending.take(n) + ready.pending.skip(n) == ready.pending);
        assert(ready.pending.take(m) + ready.pending.skip(m) == ready.pending);
        assert(concat(chunks) =~= ready.pending + concat(c.skip(j)));
        assert(concat(other_chunks) =~= ready.pending + concat(oc.skip(k)));
    }
}

/// What the pulls bring does not depend on their sizes. Two runs of pulls on streams
/// that start alike, with the same deterministic producer, each with room for at least
/// one byte at every pull and each up to the first pull that brings nothing, bring the
/// same bytes in the same order: pulls of one byte as much as pulls of any other sizes.
pub proof fn lemma_pulls_bring_the_same<O, U: Fn(O, ReadForWriteWriter) -> StepOutcome<O>>(
    step: U,
    rooms: Seq<nat>,
    views: Seq<StreamView<O>>,
    chunks: Seq<Seq<u8>>,
    other_rooms: Seq<nat>,
    other_views: Seq<StreamView<O>>,
    other_chunks: Seq<Seq<u8>>,
)
    requires
        deterministic(step),
        pulls(step, rooms, views, chunks),
        to_the_end(chunks),
        pulls(step, other_rooms, other_views, other_chunks),
        to_the_end(other_chunks),
        views[0] == other_views[0],
    ensures
        concat(chunks) == concat(other_chunks),
{
    let j = lemma_buffer_goes_out_first(step, rooms, views, chunks);
    let k = lemma_buffer_goes_out_first(step, other_rooms, other_views, other_chunks);
    lemma_rest_of_run(step, rooms, views, chunks, j);
    lemma_rest_of_run(step, other_rooms, other_views, other_chunks, k);
    lemma_same_from_empty(
        step,
        rooms.skip(j),
        views.skip(j),
        chunks.skip(j),
        other_rooms.skip(k),
        other_views.skip(k),
        other_chunks.skip(k),
    );
    lemma_concat_split(chunks, j);
    lemma_concat_split(other_chunks, k);
}

/// The producer, started from `state`, makes as many steps as `script` has chunks and
/// then has finished: step `i` leaves `script[i]` in the buffer.
pub open spec fn produces<O, U: Fn(O, ReadForWriteWriter) -> StepOutcome<O>>(
    state: Option<O>,
    step: U,
    script: Seq<Seq<u8>>,
) -> bool
    decreases script.len(),
{
    if script.len() == 0 {
        state is None
    } else {
        state is Some && exists|w: ReadForWriteWriter, outcome: StepOutcome<O>|
            w@.len() == 0 && call_ensures(step, (state->0, w), outcome) && after_step(
                outcome,
            ).pending == script[0] && produces(
                after_step(outcome).state,
                step,
                script.drop_first(),
            )
    }
}

/// Where nothing is buffered, a pull finds the stream as the producer's next steps leave
/// it: the steps up to the first that writes something, or up to the end. `done` steps
/// are made.
proof fn lemma_refill_follows_script<O, U: Fn(O, ReadForWriteWriter) -> StepOutcome<O>>(
    before: StreamView<O>,
    step: U,
    steps: nat,
    ready: StreamView<O>,
    script: Seq<Seq<u8>>,
) -> (done: int)
    requires
        deterministic(step),
        before.pending.len() == 0,
        refilled(before, step, steps, ready),
        produces(before.state, step, script),
        script.len() <= steps,
    ensures
        0 <= done <= script.len(),
        produces(ready.state, step, script.skip(done)),
        concat(script) == ready.pending + concat(script.skip(done)),
        ready.pending.len() > 0 || ready.state is None,
    decreases steps,
{
    if before.state is None {
        assert(script.skip(0) == script);
        assert(ready.pending + concat(script) =~= concat(script));
        0
    } else {
        let (w, a) = choose|w: ReadForWriteWriter, a: StepOutcome<O>|
            w@.len() == 0 && call_ensures(step, (before.state->0, w), a) && refilled(
                after_step(a),
                step,
                (steps - 1) as nat,
                ready,
            );
        let (v, b) = choose|v: ReadForWriteWriter, b: StepOutcome<O>|
            v@.len() == 0 && call_ensures(step, (before.state->0, v), b) && after_step(
                b,
            ).pending == script[0] && produces(after_step(b).state, step, script.drop_first());
        assert(after_step(a) == after_step(b));
        let next = after_step(a);
        assert(script.drop_first() == script.skip(1));
        if next.pending.len() > 0 {
            1
        } else {
            let rest = script.drop_first();
            let more = lemma_refill_follows_script(next, step, (steps - 1) as nat, ready, rest);
            assert(rest.skip(more) == script.skip(more + 1));
            assert(script[0] + concat(rest) =~= concat(rest));
            more + 1
        }
    }
}

/// A run of pulls brings everything, in order and once. Where the producer is
/// deterministic and makes the steps of `script`, no more than `usize::MAX` of them,
/// before it has finished, a run of pulls up to the first pull that brings nothing
/// brings what was buffered and then what each step wrote, whatever room the pulls
/// offer: all that `drained` lists.
pub proof fn lemma_pulls_bring_everything<O, U: Fn(O, ReadForWriteWriter) -> StepOutcome<O>>(
    step: U,
    rooms: Seq<nat>,
    views: Seq<StreamView<O>>,
    chunks: Seq<Seq<u8>>,
    script: Seq<Seq<u8>>,
)
    requires
        deterministic(step),
        pulls(step, rooms, views, chunks),
        to_the_end(chunks),
        produces(views[0].state, step, script),
        script.len() <= usize::MAX,
    ensures
        concat(chunks) == views[0].pending + concat(script),
        forall|room: nat| room >= 1 ==> concat(chunks) == #[trigger] drained(
            views[0].pending,
            script,
            room,
        ),
    decreases chunks.len(),
{
    let found = views[0];
    assert(pulled(found, step, rooms[0], chunks[0], views[1]));
    let ready = choose|ready: StreamView<O>| #[trigger]
        refilled(found, step, usize::MAX as nat, ready) && chunks[0] == ready.pending.take(
            portion(ready.pending, rooms[0]) as int,
        ) && views[1] == (StreamView {
            pending: ready.pending.skip(portion(ready.pending, rooms[0]) as int),
            state: ready.state,
        });
    let n = portion(ready.pending, rooms[0]) as int;
    let done = if found.pending.len() > 0 {
        assert(script.skip(0) == script);
        0
    } else {
        assert(found.pending + concat(script) =~= concat(script));
        lemma_refill_follows_script(found, step, usize::MAX as nat, ready, script)
    };
    let left = script.skip(done);
    assert(found.pending + concat(script) == ready.pending + concat(left));
    lemma_concat_split(chunks, 1);
    assert(concat(chunks.take(1).drop_first()) =~= Seq::<u8>::empty());
    assert(concat(chunks.take(1)) =~= chunks[0]);
    if chunks[0].len() == 0 {
        assert(chunks.len() == 1);
        assert(chunks.skip(1) =~= Seq::<Seq<u8>>::empty());
        assert(ready.pending.len() == 0 && ready.state is None);
        assert(left.len() == 0);
        assert(concat(chunks) =~= found.pending + concat(script));
    } else {
        lemma_rest_of_run(step, rooms, views, chunks, 1);
        lemma_pulls_bring_everything(step, rooms.skip(1), views.skip(1), chunks.skip(1), left);
        assert(ready.pending.take(n) + ready.pending.skip(n) == ready.pending);
        assert(concat(chunks) =~= ready.pending + concat(left));
    }
    assert forall|room: nat| room >= 1 implies concat(chunks) == #[trigger] drained(
        views[0].pending,
        script,
        room,
    ) by {
        lemma_drained_is_everything(views[0].pending, script, room);
    }
}

/// A response whose body is a stream.
#[verifier::reject_recursive_types(O)]
#[verifier::reject_recursive_types(U)]
pub struct Streamed<O, U: Fn(O, ReadForWriteWriter) -> StepOutcome<O>> {
    /// Status and headers; the body of the head is empty.
    pub head: Response,
    pub body: ReadForWrite<O, U>,
}

/// Status and headers of a streamed response that carries `content_type`.
pub open spec fn streamed_head(content_type: Seq<char>) -> ResponseView {
    ResponseView {
        status: Status::Success,
        headers: seq![(lowercase("content-type"@), encode_utf8(content_type))],
        body: Seq::empty(),
    }
}

impl<O, U: Fn(O, ReadForWriteWriter) -> StepOutcome<O>> ReadForWrite<O, U> {
    /// Starts a streamed response. `initial_state_builder` gets an empty writer and
    /// hands back the producer's first state, with the writer and what it wrote to open
    /// the body; `add_more_data` is the producer's step. Where the builder fails, the
    /// response is an internal error with its message.
    pub fn build_response<B: FnOnce(ReadForWriteWriter) -> (Result<O, String>, ReadForWriteWriter)>(
        initial_state_builder: B,
        add_more_data: U,
        content_type: &'static str,
    ) -> (r: Result<Streamed<O, U>, HttpError>)
        requires
            forall|w: ReadForWriteWriter|
                w@.len() == 0 ==> call_requires(initial_state_builder, (w,)),
            forall|s: O, w: ReadForWriteWriter|
                w@.len() == 0 ==> call_requires(add_more_data, (s, w)),
        ensures
            exists|w: ReadForWriteWriter, built: (Result<O, String>, ReadForWriteWriter)|
                w@.len() == 0 && call_ensures(initial_state_builder, (w,), built) && match built.0 {
                    Err(message) => r matches Err(e) && e@ == internal(message@),
                    Ok(state) => r matches Ok(streamed) && streamed.head@ == streamed_head(
                        content_type@,
                    ) && streamed.body@ == (StreamView { pending: built.1@, state: Some(state) })
                        && streamed.body.producer() == add_more_data && streamed.body.wf(),
                },
    {
        let writer = ReadForWriteWriter::new();
        let ghost w0 = writer;
        let built = initial_state_builder(writer);
        let ghost built0 = built;
        let (result, filled) = built;
        match result {
            Err(message) => Err(crate::http::internal_server_error(message)),
            Ok(state) => {
                let mut headers = Headers::new();
                headers.append("content-type", content_type.as_bytes());
                let head = Response { status: Status::Success, headers, body: Vec::new() };
                let body = ReadForWrite {
                    buffer: filled.into_bytes(),
                    position: 0,
                    add_more_data,
                    state: Some(state),
                };
                proof {
                    assert(body.buffer@.skip(0) == body.buffer@);
                    assert(head@.headers =~= streamed_head(content_type@).headers);
                }
                Ok(Streamed { head, body })
            },
        }
    }
}

} // verus!
