//! The connection worker: one per accepted connection, it owns the
//! connection for its whole life and runs the read/echo loop.
//!
//! The worker is a small state machine, `Reading -> Writing -> Reading -> ...
//! -> Closed`. Each blocking read the surrounding process performs is handed
//! in as a [`ReadOutcome`]; the worker answers with the [`Action`] to take:
//! write these exact bytes back, or finish. A read error or an end-of-stream
//! closes the session from `Reading`; a write error closes it from
//! `Writing`. `Closed` is terminal: no function steps a closed worker.

use vstd::prelude::*;

verus! {

/// Size in bytes of the fixed buffer a worker reads into. A single read
/// delivers at most this many bytes; longer messages arrive over several
/// read/write cycles.
pub const BUFFER_LEN: usize = 64;

/// What one blocking read of the connection delivered.
pub enum ReadOutcome {
    /// The read returned at least one byte: exactly these bytes.
    Data(Vec<u8>),
    /// The read returned zero bytes: the peer closed its end.
    Closed,
    /// The read failed with an I/O error.
    Failed,
}

/// What one blocking write of the echoed bytes did.
pub enum WriteOutcome {
    /// The bytes were written back.
    Done,
    /// The write failed with an I/O error.
    Failed,
}

/// How a session over a finite script of reads came to its end.
#[derive(Clone, Copy, Debug, PartialEq, Eq, Structural)]
pub enum SessionEnd {
    /// The peer closed its end of the connection; the clean end.
    PeerClosed,
    /// A read failed; the worker stopped without writing anything further.
    ReadError,
    /// A write failed; the worker stopped without retrying.
    WriteError,
    /// The script ran out while the worker was still ready to read; a live
    /// connection never reaches this, only a simulated one can.
    Exhausted,
}

/// The worker's state. `Closed` is terminal: both step functions require a
/// worker that is not closed, so no transition leaves `Closed`.
#[derive(Clone, Copy, Debug, PartialEq, Eq, Structural)]
pub enum WorkerState {
    /// Blocked on the next read.
    Reading,
    /// Holds bytes just read; the echo write is due.
    Writing,
    /// The session is over; the worker does nothing further.
    Closed,
}

/// What the worker asks of the process that drives it.
pub enum Action {
    /// Write exactly these bytes back to the peer.
    Write(Vec<u8>),
    /// The session is over; close the connection and stop.
    Finish(SessionEnd),
}

/// The spec-level picture of one read, with the bytes as a sequence.
pub ghost enum ReadModel {
    Data(Seq<u8>),
    Closed,
    Failed,
}

/// A read is well formed when its data fits the worker's buffer and is not
/// empty: a read of zero bytes is `Closed`, never `Data`.
pub open spec fn read_valid(r: ReadModel) -> bool {
    r matches ReadModel::Data(b) ==> 1 <= b.len() <= BUFFER_LEN
}

/// Every read of a script is well formed.
pub open spec fn reads_valid(reads: Seq<ReadModel>) -> bool {
    forall|i: int| 0 <= i < reads.len() ==> read_valid(#[trigger] reads[i])
}

impl ReadOutcome {
    /// The spec-level picture of this read.
    pub open spec fn model(self) -> ReadModel {
        match self {
            ReadOutcome::Data(b) => ReadModel::Data(b@),
            ReadOutcome::Closed => ReadModel::Closed,
            ReadOutcome::Failed => ReadModel::Failed,
        }
    }

    /// Well-formedness of this read: data is nonempty and fits the buffer.
    pub open spec fn valid(self) -> bool {
        read_valid(self.model())
    }
}

/// The spec-level pictures of a script of reads, in order.
pub open spec fn models_of(reads: Seq<ReadOutcome>) -> Seq<ReadModel> {
    reads.map_values(|r: ReadOutcome| r.model())
}

/// The payloads the worker echoes over a script of reads: the data of every
/// read before the first close or failure, each echoed in its own cycle,
/// unchanged and in order.
pub open spec fn echoes_of(reads: Seq<ReadModel>) -> Seq<Seq<u8>>
    decreases reads.len(),
{
    if reads.len() == 0 {
        Seq::empty()
    } else {
        match reads[0] {
            ReadModel::Data(b) => seq![b] + echoes_of(reads.drop_first()),
            ReadModel::Closed => Seq::empty(),
            ReadModel::Failed => Seq::empty(),
        }
    }
}

/// How a session over a script of reads ends: by the first close or failure,
/// or exhausted when the script runs out first.
pub open spec fn end_of(reads: Seq<ReadModel>) -> SessionEnd
    decreases reads.len(),
{
    if reads.len() == 0 {
        SessionEnd::Exhausted
    } else {
        match reads[0] {
            ReadModel::Data(_) => end_of(reads.drop_first()),
            ReadModel::Closed => SessionEnd::PeerClosed,
            ReadModel::Failed => SessionEnd::ReadError,
        }
    }
}

/// Turn what one read call reported — the buffer it filled and how many
/// bytes it placed there — into the read's outcome. Only the filled prefix
/// of the buffer is kept: stale bytes beyond `size` never reach the echo.
/// A zero-byte read is the peer closing its end.
pub fn read_event(bfr: &[u8], size: usize) -> (r: ReadOutcome)
    requires
        size <= bfr@.len(),
        size <= BUFFER_LEN,
    ensures
        size == 0 ==> r is Closed,
        size > 0 ==> (r matches ReadOutcome::Data(b) && b@ == bfr@.take(size as int)),
        r.valid(),
{
    if size == 0 {
        ReadOutcome::Closed
    } else {
        let mut msg: Vec<u8> = Vec::new();
        let mut i: usize = 0;
        while i < size
            invariant
                i <= size,
                size <= bfr@.len(),
                msg@ == bfr@.take(i as int),
            decreases size - i,
        {
            msg.push(bfr[i]);
            proof {
                assert(msg@ =~= bfr@.take(i + 1));
            }
            i = i + 1;
        }
        ReadOutcome::Data(msg)
    }
}

/// One worker: the unit of execution owning one connection's read/write
/// lifecycle. It shares nothing with the listener or with other workers.
pub struct Worker {
    /// Where the worker stands in its `Reading -> Writing -> Closed` life.
    pub state: WorkerState,
}

impl Worker {
    /// A fresh worker for a newly accepted connection, ready to read.
    pub fn new() -> (w: Worker)
        ensures
            w.state is Reading,
    {
        Worker { state: WorkerState::Reading }
    }

    /// Step the worker with what the read delivered. Data moves it to
    /// `Writing` and asks for exactly those bytes to be written back; a
    /// close or a failure moves it to `Closed` with the session's end, and
    /// nothing is ever written for such a read.
    pub fn on_read(&mut self, r: ReadOutcome) -> (a: Action)
        requires
            old(self).state is Reading,
            r.valid(),
        ensures
            r matches ReadOutcome::Data(b) ==> (a matches Action::Write(w)
                && w@ == b@ && final (self).state is Writing),
            r is Closed ==> final (self).state is Closed
                && a == Action::Finish(SessionEnd::PeerClosed),
            r is Failed ==> final (self).state is Closed
                && a == Action::Finish(SessionEnd::ReadError),
    {
        match r {
            ReadOutcome::Data(b) => {
                self.state = WorkerState::Writing;
                Action::Write(b)
            },
            ReadOutcome::Closed => {
                self.state = WorkerState::Closed;
                Action::Finish(SessionEnd::PeerClosed)
            },
            ReadOutcome::Failed => {
                self.state = WorkerState::Closed;
                Action::Finish(SessionEnd::ReadError)
            },
        }
    }

    /// Step the worker with what the echo write did. Success returns it to
    /// `Reading` for the next cycle; a failure closes the session — no
    /// retry, the error is the worker's alone.
    pub fn on_write(&mut self, w: WriteOutcome) -> (end: Option<SessionEnd>)
        requires
            old(self).state is Writing,
        ensures
            w is Done ==> final (self).state is Reading && end is None,
            w is Failed ==> final (self).state is Closed
                && end == Some(SessionEnd::WriteError),
    {
        match w {
            WriteOutcome::Done => {
                self.state = WorkerState::Reading;
                None
            },
            WriteOutcome::Failed => {
                self.state = WorkerState::Closed;
                Some(SessionEnd::WriteError)
            },
        }
    }
}

} // verus!
