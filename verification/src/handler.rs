//! The per-connection echo state machine.
//!
//! One [`Handler`] value exists per accepted connection and is owned by the
//! execution unit driving that connection; handlers share nothing. The
//! transport shell reports each read and write outcome to the handler, and
//! the handler decides what happens next: echo the chunk back, return to
//! reading, or close.

use vstd::prelude::*;

verus! {

/// Where a connection stands in its lifecycle.
#[derive(Clone, Copy, PartialEq, Eq, Structural, Debug)]
pub enum Phase {
    /// Waiting for the next chunk from the peer.
    Reading,
    /// A chunk has been read and not yet fully written back.
    Echoing,
    /// The peer performed an orderly close; nothing was lost.
    ClosedClean,
    /// A transport error ended the connection early.
    ClosedError,
}

/// What one read attempt on the connection produced.
pub enum ReadOutcome {
    /// At least one byte arrived.
    Data(Vec<u8>),
    /// A zero-byte read: the peer closed its write side.
    Eof,
    /// The transport reported an error.
    Failed,
}

/// The state of one connection's echo loop.
pub struct Handler {
    chunk_size: usize,
    phase: Phase,
    /// The chunk currently being echoed; empty outside `Phase::Echoing`.
    pending: Vec<u8>,
    /// How much of `pending` the transport has confirmed written.
    written: usize,
    /// All bytes ever handed in by reads, oldest first.
    received: Ghost<Seq<u8>>,
    /// All bytes the transport has confirmed written back, oldest first.
    echoed: Ghost<Seq<u8>>,
}

/// The mathematical state of a [`Handler`].
#[verifier::ext_equal]
pub struct HandlerModel {
    pub chunk_size: nat,
    pub phase: Phase,
    pub pending: Seq<u8>,
    pub written: nat,
    pub received: Seq<u8>,
    pub echoed: Seq<u8>,
}

impl View for Handler {
    type V = HandlerModel;

    closed spec fn view(&self) -> HandlerModel {
        HandlerModel {
            chunk_size: self.chunk_size as nat,
            phase: self.phase,
            pending: self.pending@,
            written: self.written as nat,
            received: self.received@,
            echoed: self.echoed@,
        }
    }
}

impl HandlerModel {
    /// The invariant every handler maintains. Outside an echo cycle the
    /// bytes written back are exactly the bytes received; during a cycle
    /// the unwritten tail of the current chunk is all that separates them;
    /// after an error the bytes written back are a prefix of those received.
    pub open spec fn wf(self) -> bool {
        &&& self.chunk_size >= 1
        &&& match self.phase {
            Phase::Reading => {
                &&& self.pending.len() == 0
                &&& self.written == 0
                &&& self.echoed == self.received
            },
            Phase::Echoing => {
                &&& 1 <= self.pending.len() <= self.chunk_size
                &&& self.written < self.pending.len()
                &&& self.received == self.echoed + self.pending.skip(self.written as int)
            },
            Phase::ClosedClean => {
                &&& self.pending.len() == 0
                &&& self.written == 0
                &&& self.echoed == self.received
            },
            Phase::ClosedError => {
                self.echoed == self.received.take(self.echoed.len() as int)
            },
        }
    }

    /// A connection that is still running.
    pub open spec fn is_open(self) -> bool {
        self.phase == Phase::Reading || self.phase == Phase::Echoing
    }
}

/// The state of a freshly accepted connection.
pub open spec fn init_model(chunk_size: nat) -> HandlerModel {
    HandlerModel {
        chunk_size,
        phase: Phase::Reading,
        pending: Seq::empty(),
        written: 0,
        received: Seq::empty(),
        echoed: Seq::empty(),
    }
}

/// The peer delivered the chunk `b`: remember it and start echoing it back.
pub open spec fn read_data(m: HandlerModel, b: Seq<u8>) -> HandlerModel {
    HandlerModel {
        phase: Phase::Echoing,
        pending: b,
        written: 0,
        received: m.received + b,
        ..m
    }
}

/// A zero-byte read: the peer closed its write side in an orderly way.
pub open spec fn read_eof(m: HandlerModel) -> HandlerModel {
    HandlerModel { phase: Phase::ClosedClean, ..m }
}

/// A transport error, or a write that made no progress, ends the
/// connection; nothing already confirmed written is taken back.
pub open spec fn close_on_error(m: HandlerModel) -> HandlerModel {
    HandlerModel { phase: Phase::ClosedError, ..m }
}

/// The transport confirmed `n` more bytes of the current chunk written
/// back, `1 <= n <=` the unwritten remainder. When the chunk is complete
/// the handler returns to reading.
pub open spec fn write_ok(m: HandlerModel, n: nat) -> HandlerModel {
    let echoed = m.echoed + m.pending.subrange(m.written as int, (m.written + n) as int);
    if m.written + n == m.pending.len() {
        HandlerModel {
            phase: Phase::Reading,
            pending: Seq::empty(),
            written: 0,
            echoed,
            ..m
        }
    } else {
        HandlerModel { written: m.written + n, echoed, ..m }
    }
}

impl Handler {
    /// A handler for a newly accepted connection.
    pub fn new(chunk_size: usize) -> (r: Handler)
        requires
            chunk_size >= 1,
        ensures
            r@ == init_model(chunk_size as nat),
            r@.wf(),
    {
        let r = Handler {
            chunk_size,
            phase: Phase::Reading,
            pending: Vec::new(),
            written: 0,
            received: Ghost(Seq::empty()),
            echoed: Ghost(Seq::empty()),
        };
        proof {
            assert(r@ =~= init_model(chunk_size as nat));
        }
        r
    }

    /// Record the outcome of one read attempt. Data moves the handler into
    /// an echo cycle for exactly those bytes; a zero-byte read closes the
    /// connection cleanly; a transport error closes it with an error. The
    /// chunk a read may deliver is bounded by the buffer, `chunk_size`.
    pub fn on_read(&mut self, outcome: ReadOutcome)
        requires
            old(self)@.wf(),
            old(self)@.phase == Phase::Reading,
            outcome matches ReadOutcome::Data(b) ==> 1 <= b@.len() <= old(self)@.chunk_size,
        ensures
            final(self)@.wf(),
            (match outcome {
                ReadOutcome::Data(b) => final(self)@ == read_data(old(self)@, b@),
                ReadOutcome::Eof => final(self)@ == read_eof(old(self)@),
                ReadOutcome::Failed => final(self)@ == close_on_error(old(self)@),
            }),
    {
        match outcome {
            ReadOutcome::Data(b) => {
                self.received = Ghost(self.received@ + b@);
                self.pending = b;
                self.written = 0;
                self.phase = Phase::Echoing;
                proof {
                    assert(self@ =~= read_data(old(self)@, self@.pending));
                    assert(self@.received =~= self@.echoed + self@.pending.skip(0));
                }
            },
            ReadOutcome::Eof => {
                self.phase = Phase::ClosedClean;
                proof {
                    assert(self@ =~= read_eof(old(self)@));
                }
            },
            ReadOutcome::Failed => {
                self.phase = Phase::ClosedError;
                proof {
                    assert(self@ =~= close_on_error(old(self)@));
                    assert(self@.echoed =~= self@.received.take(self@.echoed.len() as int));
                }
            },
        }
    }

    /// Record that the transport confirmed `n` bytes of the current chunk
    /// written back. A write that makes no progress (`n == 0`) is fatal to
    /// this connection; otherwise the cycle advances, and when the whole
    /// chunk is out the handler returns to reading.
    pub fn on_write(&mut self, n: usize)
        requires
            old(self)@.wf(),
            old(self)@.phase == Phase::Echoing,
            n <= old(self)@.pending.len() - old(self)@.written,
        ensures
            final(self)@.wf(),
            n == 0 ==> final(self)@ == close_on_error(old(self)@),
            n >= 1 ==> final(self)@ == write_ok(old(self)@, n as nat),
    {
        if n == 0 {
            self.phase = Phase::ClosedError;
            proof {
                assert(self@ =~= close_on_error(old(self)@));
                assert(self@.echoed =~= self@.received.take(self@.echoed.len() as int));
            }
        } else {
            let ghost pre = self@;
            let new_written: usize = self.written + n;
            self.echoed = Ghost(
                self.echoed@ + self.pending@.subrange(self.written as int, new_written as int),
            );
            if new_written == self.pending.len() {
                self.pending = Vec::new();
                self.written = 0;
                self.phase = Phase::Reading;
            } else {
                self.written = new_written;
            }
            proof {
                assert(pre.pending.subrange(pre.written as int, new_written as int)
                    + pre.pending.skip(new_written as int) =~= pre.pending.skip(
                    pre.written as int,
                ));
                assert(self@.echoed + pre.pending.skip(new_written as int) =~= pre.echoed
                    + pre.pending.skip(pre.written as int));
                assert(self@ =~= write_ok(pre, n as nat));
            }
        }
    }

    /// The transport reported an error while writing the current chunk
    /// back: the connection closes with an error.
    pub fn on_write_failed(&mut self)
        requires
            old(self)@.wf(),
            old(self)@.phase == Phase::Echoing,
        ensures
            final(self)@.wf(),
            final(self)@ == close_on_error(old(self)@),
    {
        self.phase = Phase::ClosedError;
        proof {
            assert(self@ =~= close_on_error(old(self)@));
            assert(self@.echoed =~= self@.received.take(self@.echoed.len() as int));
        }
    }

    /// The chunk read in the current cycle, exactly as the read delivered
    /// it: this is what the inspection hook observes. The handler is not
    /// changed, so peeking cannot alter what is echoed.
    pub fn peek_chunk(&self) -> (r: &Vec<u8>)
        requires
            self@.phase == Phase::Echoing,
        ensures
            r@ == peeked(self@),
            r@ == self@.pending,
    {
        &self.pending
    }

    /// The bytes of the current chunk still owed to the peer: the chunk
    /// minus what earlier writes of this cycle already moved.
    pub fn remaining(&self) -> (r: Vec<u8>)
        requires
            self@.wf(),
            self@.phase == Phase::Echoing,
        ensures
            r@ == self@.pending.skip(self@.written as int),
            r@.len() >= 1,
    {
        let mut r: Vec<u8> = Vec::new();
        let mut i: usize = self.written;
        while i < self.pending.len()
            invariant
                self@.written <= i <= self@.pending.len(),
                r@ == self@.pending.subrange(self@.written as int, i as int),
            decreases self@.pending.len() - i,
        {
            let byte: u8 = self.pending[i];
            r.push(byte);
            i += 1;
            proof {
                assert(r@ =~= self@.pending.subrange(self@.written as int, i as int));
            }
        }
        proof {
            assert(r@ =~= self@.pending.skip(self@.written as int));
        }
        r
    }

    /// The connection is still running: reading, or mid-echo.
    pub fn is_open(&self) -> (r: bool)
        ensures
            r == self@.is_open(),
    {
        self.phase == Phase::Reading || self.phase == Phase::Echoing
    }

    /// Waiting for the next chunk.
    pub fn is_reading(&self) -> (r: bool)
        ensures
            r == (self@.phase == Phase::Reading),
    {
        self.phase == Phase::Reading
    }

    /// Mid-echo: part of the current chunk is still owed to the peer.
    pub fn is_echoing(&self) -> (r: bool)
        ensures
            r == (self@.phase == Phase::Echoing),
    {
        self.phase == Phase::Echoing
    }

    /// The peer closed in an orderly way and nothing was lost.
    pub fn is_closed_clean(&self) -> (r: bool)
        ensures
            r == (self@.phase == Phase::ClosedClean),
    {
        self.phase == Phase::ClosedClean
    }

    /// A transport error ended the connection.
    pub fn is_closed_error(&self) -> (r: bool)
        ensures
            r == (self@.phase == Phase::ClosedError),
    {
        self.phase == Phase::ClosedError
    }

    /// The buffer size this connection reads with.
    pub fn chunk_size(&self) -> (r: usize)
        ensures
            r == self@.chunk_size,
    {
        self.chunk_size
    }
}

/// The sum of a sequence of write sizes.
pub open spec fn total_of(ns: Seq<nat>) -> nat
    decreases ns.len(),
{
    if ns.len() == 0 {
        0
    } else {
        ns[0] + total_of(ns.skip(1))
    }
}

/// Every write in the sequence moved at least one byte.
pub open spec fn all_progress(ns: Seq<nat>) -> bool {
    forall|i: int| 0 <= i < ns.len() ==> #[trigger] ns[i] >= 1
}

/// The state after the transport confirms the writes `ns`, oldest first.
pub open spec fn apply_writes(m: HandlerModel, ns: Seq<nat>) -> HandlerModel
    decreases ns.len(),
{
    if ns.len() == 0 {
        m
    } else {
        apply_writes(write_ok(m, ns[0]), ns.skip(1))
    }
}

/// The bytes the inspection hook observes for the current cycle.
pub open spec fn peeked(m: HandlerModel) -> Seq<u8> {
    m.pending
}

/// Reading a chunk that fits the buffer keeps the handler invariant and
/// extends the received transcript by exactly that chunk.
pub proof fn lemma_read_data_wf(m: HandlerModel, b: Seq<u8>)
    requires
        m.wf(),
        m.phase == Phase::Reading,
        1 <= b.len() <= m.chunk_size,
    ensures
        read_data(m, b).wf(),
        read_data(m, b).received == m.received + b,
        read_data(m, b).echoed == m.echoed,
{
    let mid = read_data(m, b);
    assert(mid.pending.skip(0) =~= b);
}

/// One successful write preserves the handler invariant, confirms exactly
/// the next slice of the chunk, and finishes the cycle exactly when the
/// whole chunk is out.
pub proof fn lemma_write_ok_wf(m: HandlerModel, n: nat)
    requires
        m.wf(),
        m.phase == Phase::Echoing,
        1 <= n <= m.pending.len() - m.written,
    ensures
        ({
            let next = write_ok(m, n);
            &&& next.wf()
            &&& next.received == m.received
            &&& next.chunk_size == m.chunk_size
            &&& next.echoed == m.echoed + m.pending.subrange(
                m.written as int,
                (m.written + n) as int,
            )
            &&& (next.phase == Phase::Reading <==> m.written + n == m.pending.len())
            &&& (next.phase == Phase::Echoing <==> m.written + n < m.pending.len())
            &&& (next.phase == Phase::Echoing ==> next.pending == m.pending && next.written
                == m.written + n)
        }),
{
    let next = write_ok(m, n);
    assert(m.pending.subrange(m.written as int, (m.written + n) as int) + m.pending.skip(
        (m.written + n) as int,
    ) =~= m.pending.skip(m.written as int));
    assert(next.echoed + m.pending.skip((m.written + n) as int) =~= m.echoed + m.pending.skip(
        m.written as int,
    ));
    if m.written + n == m.pending.len() {
        assert(m.pending.skip((m.written + n) as int) =~= Seq::<u8>::empty());
        assert(next.echoed + Seq::<u8>::empty() =~= next.echoed);
    }
}

/// Round-trip identity: a chunk of at most `chunk_size` bytes read in one
/// cycle and confirmed written in full comes back exactly, in order, and
/// the handler waits for the next chunk with a balanced transcript.
pub proof fn lemma_round_trip(m: HandlerModel, b: Seq<u8>)
    requires
        m.wf(),
        m.phase == Phase::Reading,
        1 <= b.len() <= m.chunk_size,
    ensures
        ({
            let done = write_ok(read_data(m, b), b.len());
            &&& done.wf()
            &&& done.phase == Phase::Reading
            &&& done.received == m.received + b
            &&& done.echoed == m.echoed + b
            &&& done.echoed == done.received
        }),
{
    let mid = read_data(m, b);
    lemma_read_data_wf(m, b);
    lemma_write_ok_wf(mid, b.len());
    assert(mid.pending.subrange(0, b.len() as int) =~= b);
}

/// However many successful writes it takes to finish the current chunk,
/// together they echo exactly the unwritten remainder, in order, and the
/// cycle ends with the transcript balanced.
pub proof fn lemma_writes_finish_cycle(m: HandlerModel, ns: Seq<nat>)
    requires
        m.wf(),
        m.phase == Phase::Echoing,
        all_progress(ns),
        total_of(ns) == m.pending.len() - m.written,
    ensures
        ({
            let done = apply_writes(m, ns);
            &&& done.wf()
            &&& done.phase == Phase::Reading
            &&& done.received == m.received
            &&& done.echoed == m.echoed + m.pending.skip(m.written as int)
            &&& done.echoed == done.received
        }),
    decreases ns.len(),
{
    let n = ns[0];
    let next = write_ok(m, n);
    lemma_write_ok_wf(m, n);
    if m.written + n == m.pending.len() {
        let rest = ns.skip(1);
        if rest.len() > 0 {
            assert(total_of(rest) >= rest[0]);
        }
        assert(rest.len() == 0);
        assert(apply_writes(next, rest) == next);
    } else {
        lemma_writes_finish_cycle(next, ns.skip(1));
        assert(next.echoed + next.pending.skip(next.written as int) =~= m.echoed
            + m.pending.skip(m.written as int));
    }
}

/// Chunk-size boundary and split writes: a chunk read in one cycle is
/// echoed back exactly, however the transport splits its write-back into
/// progressing writes. With a single write of the whole chunk this is one
/// read/write cycle; a full buffer (`len == chunk_size`) is no different.
pub proof fn lemma_split_round_trip(m: HandlerModel, b: Seq<u8>, ns: Seq<nat>)
    requires
        m.wf(),
        m.phase == Phase::Reading,
        1 <= b.len() <= m.chunk_size,
        all_progress(ns),
        total_of(ns) == b.len(),
    ensures
        ({
            let done = apply_writes(read_data(m, b), ns);
            &&& done.wf()
            &&& done.phase == Phase::Reading
            &&& done.received == m.received + b
            &&& done.echoed == m.echoed + b
        }),
{
    let mid = read_data(m, b);
    lemma_read_data_wf(m, b);
    assert(mid.pending.skip(0) =~= b);
    lemma_writes_finish_cycle(mid, ns);
}

/// Between cycles the transcript balances: every byte received has been
/// written back and nothing else has.
pub proof fn lemma_transcript_balanced(m: HandlerModel)
    requires
        m.wf(),
        m.phase == Phase::Reading || m.phase == Phase::ClosedClean,
    ensures
        m.echoed == m.received,
{
}

/// Clean shutdown: a zero-byte read between cycles closes the connection
/// without error and without spurious bytes — exactly what was received
/// had been echoed, and closing changes neither transcript.
pub proof fn lemma_clean_shutdown(m: HandlerModel)
    requires
        m.wf(),
        m.phase == Phase::Reading,
    ensures
        ({
            let done = read_eof(m);
            &&& done.wf()
            &&& done.phase == Phase::ClosedClean
            &&& done.received == m.received
            &&& done.echoed == m.echoed
            &&& done.echoed == done.received
        }),
{
}

/// Peek fidelity: in the cycle started by reading `b`, the inspection
/// hook observes exactly `b`, and the bytes the cycle echoes are exactly
/// the observed ones. The hook is handed the chunk read-only, so its
/// invocation cannot alter what is echoed.
pub proof fn lemma_peek_fidelity(m: HandlerModel, b: Seq<u8>)
    requires
        m.wf(),
        m.phase == Phase::Reading,
        1 <= b.len() <= m.chunk_size,
    ensures
        peeked(read_data(m, b)) == b,
        write_ok(read_data(m, b), b.len()).echoed == m.echoed + peeked(read_data(m, b)),
{
    lemma_round_trip(m, b);
}

/// Connection independence: a handler's state is a function of its own
/// events alone, so two connections driven with their own chunks each get
/// exactly their own payload back, whatever the other carried.
pub proof fn lemma_connection_independence(
    m1: HandlerModel,
    m2: HandlerModel,
    b1: Seq<u8>,
    b2: Seq<u8>,
)
    requires
        m1.wf(),
        m2.wf(),
        m1.phase == Phase::Reading,
        m2.phase == Phase::Reading,
        1 <= b1.len() <= m1.chunk_size,
        1 <= b2.len() <= m2.chunk_size,
    ensures
        write_ok(read_data(m1, b1), b1.len()).echoed == m1.echoed + b1,
        write_ok(read_data(m2, b2), b2.len()).echoed == m2.echoed + b2,
{
    lemma_round_trip(m1, b1);
    lemma_round_trip(m2, b2);
}

} // verus!
