//! The listener side of the service and the glue between it and the
//! workers.
//!
//! A [`ConnectionHandler`] owns the listener's output: the sequence of
//! accept outcomes the OS delivered. [`HandleClients::handle_clients`]
//! dispatches every successfully accepted connection to its own worker run —
//! a failed accept is skipped and the loop goes on — and
//! [`HandleClient::handle_client`] is one worker's whole life over one
//! connection's reads. No state crosses from one connection to another:
//! each session's result is a function of that session's reads alone.

use vstd::prelude::*;

use crate::worker::echoes_of;
use crate::worker::end_of;
use crate::worker::models_of;
use crate::worker::read_event;
use crate::worker::reads_valid;
use crate::worker::Action;
use crate::worker::ReadModel;
use crate::worker::ReadOutcome;
use crate::worker::SessionEnd;
use crate::worker::Worker;
use crate::worker::WriteOutcome;

verus! {

/// The spec-level picture of one finished session: what was echoed, and how
/// the session ended.
pub ghost struct SessionModel {
    /// The echoed payloads, one per read/write cycle, in order.
    pub echoed: Seq<Seq<u8>>,
    /// How the session came to its end.
    pub end: SessionEnd,
}

/// The session a worker runs over a script of reads: it echoes the data of
/// every read before the first close or failure, and ends as that first
/// close or failure says.
pub open spec fn session_of(reads: Seq<ReadModel>) -> SessionModel {
    SessionModel { echoed: echoes_of(reads), end: end_of(reads) }
}

/// The record of one finished session.
#[derive(Debug)]
pub struct SessionLog {
    /// The echoed payloads, one per read/write cycle, in order.
    pub echoed: Vec<Vec<u8>>,
    /// How the session came to its end.
    pub end: SessionEnd,
}

impl SessionLog {
    /// The spec-level picture of this record.
    pub open spec fn model(self) -> SessionModel {
        SessionModel { echoed: self.echoed.deep_view(), end: self.end }
    }
}

/// The spec-level pictures of a run of session records, in order.
pub open spec fn logs_model(logs: Seq<SessionLog>) -> Seq<SessionModel> {
    logs.map_values(|l: SessionLog| l.model())
}

/// What one accept attempt of the listener delivered.
pub enum AcceptOutcome {
    /// A connection was accepted; it carries the reads its peer will
    /// produce.
    Conn(Vec<ReadOutcome>),
    /// The accept failed with a transient error; it is logged and skipped,
    /// never fatal.
    Failed,
}

/// The spec-level picture of one accept attempt.
pub ghost enum AcceptModel {
    Conn(Seq<ReadModel>),
    Failed,
}

/// An accept is well formed when every read of its connection is.
pub open spec fn accept_valid(a: AcceptModel) -> bool {
    a matches AcceptModel::Conn(reads) ==> reads_valid(reads)
}

/// Every accept of a script is well formed.
pub open spec fn accepts_valid(accepts: Seq<AcceptModel>) -> bool {
    forall|i: int| 0 <= i < accepts.len() ==> accept_valid(#[trigger] accepts[i])
}

impl AcceptOutcome {
    /// The spec-level picture of this accept attempt.
    pub open spec fn model(self) -> AcceptModel {
        match self {
            AcceptOutcome::Conn(reads) => AcceptModel::Conn(models_of(reads@)),
            AcceptOutcome::Failed => AcceptModel::Failed,
        }
    }
}

/// The spec-level pictures of a script of accept attempts, in order.
pub open spec fn accept_models_of(accepts: Seq<AcceptOutcome>) -> Seq<AcceptModel> {
    accepts.map_values(|a: AcceptOutcome| a.model())
}

/// The sessions a listener's dispatch produces over a script of accepts:
/// one per accepted connection, each the session of that connection's own
/// reads; failed accepts produce nothing.
pub open spec fn sessions_of(accepts: Seq<AcceptModel>) -> Seq<SessionModel>
    decreases accepts.len(),
{
    if accepts.len() == 0 {
        Seq::empty()
    } else {
        match accepts[0] {
            AcceptModel::Conn(reads) => seq![session_of(reads)]
                + sessions_of(accepts.drop_first()),
            AcceptModel::Failed => sessions_of(accepts.drop_first()),
        }
    }
}

/// The listener's one fatal error: it was asked to accept without being
/// bound to anything.
#[derive(Clone, Copy, Debug, PartialEq, Eq, Structural)]
pub enum ListenerError {
    /// No listener is defined; nothing can be accepted.
    NotDefined,
}

/// Owns what one bound listener delivered: the accept outcomes, in order.
/// `None` stands for a handler whose listener was never defined; asking it
/// to handle clients is the one fatal error.
pub struct ConnectionHandler {
    /// The listener's output, or `None` when no listener is defined.
    pub listener: Option<Vec<AcceptOutcome>>,
}

impl ConnectionHandler {
    /// The spec-level picture of the listener this handler owns.
    pub open spec fn listener_model(self) -> Option<Seq<AcceptModel>> {
        match self.listener {
            Some(accepts) => Some(accept_models_of(accepts@)),
            None => None,
        }
    }

    /// A handler owning a listener's output.
    pub fn new(listener: Vec<AcceptOutcome>) -> (h: ConnectionHandler)
        ensures
            h.listener_model() == Some(accept_models_of(listener@)),
    {
        ConnectionHandler { listener: Some(listener) }
    }
}

/// One worker's whole life over one connection.
pub trait HandleClient {
    /// Run the read/echo loop over the connection's reads: echo the data of
    /// every read before the first close or failure, exactly and in order,
    /// then stop for good — no write after a failed read, no retry.
    fn handle_client(reads: &Vec<ReadOutcome>) -> (log: SessionLog)
        requires
            reads_valid(models_of(reads@)),
        ensures
            log.model() == session_of(models_of(reads@)),
    ;
}

/// The listener's dispatch over every accept outcome it delivered.
pub trait HandleClients: HandleClient {
    /// The accept outcomes the listener delivered, or `None` when no
    /// listener is defined.
    spec fn accept_script(&self) -> Option<Seq<AcceptModel>>;

    /// Give every accepted connection its own session and skip every failed
    /// accept; a failed accept never ends the loop. With no listener
    /// defined, fail with the one fatal error instead.
    fn handle_clients(&self) -> (r: Result<Vec<SessionLog>, ListenerError>)
        requires
            self.accept_script() matches Some(accepts) ==> accepts_valid(accepts),
        ensures
            self.accept_script() is None
                ==> r == Err::<Vec<SessionLog>, ListenerError>(ListenerError::NotDefined),
            self.accept_script() matches Some(accepts)
                ==> (r matches Ok(logs) && logs_model(logs@) == sessions_of(accepts)),
    ;
}

impl HandleClient for ConnectionHandler {
    fn handle_client(reads: &Vec<ReadOutcome>) -> (log: SessionLog) {
        let ghost models = models_of(reads@);
        let mut worker = Worker::new();
        let mut echoed: Vec<Vec<u8>> = Vec::new();
        let mut i: usize = 0;
        proof {
            assert(models.skip(0) =~= models);
            assert(echoed.deep_view() + echoes_of(models) =~~= echoes_of(models));
        }
        while i < reads.len()
            invariant
                i <= reads@.len(),
                models == models_of(reads@),
                reads_valid(models),
                worker.state is Reading,
                echoed.deep_view() + echoes_of(models.skip(i as int)) =~~= echoes_of(models),
                end_of(models.skip(i as int)) == end_of(models),
            decreases reads@.len() - i,
        {
            proof {
                assert(models[i as int] == reads@[i as int].model());
                assert(models.skip(i as int)[0] == models[i as int]);
                assert(models.skip(i as int).drop_first() =~= models.skip(i + 1));
            }
            match &reads[i] {
                ReadOutcome::Data(b) => {
                    let ev = read_event(b.as_slice(), b.len());
                    proof {
                        assert(b@.take(b@.len() as int) =~= b@);
                    }
                    match worker.on_read(ev) {
                        Action::Write(w) => {
                            let ghost prev = echoed.deep_view();
                            echoed.push(w);
                            let _ = worker.on_write(WriteOutcome::Done);
                            proof {
                                assert(echoed.deep_view() =~~= prev + seq![b@]);
                                assert(echoes_of(models.skip(i as int))
                                    == seq![b@] + echoes_of(models.skip(i + 1)));
                                assert(echoed.deep_view() + echoes_of(models.skip(i + 1))
                                    =~~= echoes_of(models));
                            }
                        },
                        Action::Finish(_) => {
                            proof {
                                assert(false);
                            }
                        },
                    }
                },
                ReadOutcome::Closed => {
                    let _ = worker.on_read(ReadOutcome::Closed);
                    proof {
                        assert(echoes_of(models.skip(i as int))
                            =~~= Seq::<Seq<u8>>::empty());
                        assert(echoed.deep_view() + Seq::<Seq<u8>>::empty()
                            =~~= echoed.deep_view());
                    }
                    return SessionLog { echoed, end: SessionEnd::PeerClosed };
                },
                ReadOutcome::Failed => {
                    let _ = worker.on_read(ReadOutcome::Failed);
                    proof {
                        assert(echoes_of(models.skip(i as int))
                            =~~= Seq::<Seq<u8>>::empty());
                        assert(echoed.deep_view() + Seq::<Seq<u8>>::empty()
                            =~~= echoed.deep_view());
                    }
                    return SessionLog { echoed, end: SessionEnd::ReadError };
                },
            }
            i = i + 1;
        }
        proof {
            assert(models.skip(i as int) =~= Seq::<ReadModel>::empty());
            assert(echoed.deep_view() + Seq::<Seq<u8>>::empty() =~~= echoed.deep_view());
        }
        SessionLog { echoed, end: SessionEnd::Exhausted }
    }
}

impl HandleClients for ConnectionHandler {
    open spec fn accept_script(&self) -> Option<Seq<AcceptModel>> {
        self.listener_model()
    }

    fn handle_clients(&self) -> (r: Result<Vec<SessionLog>, ListenerError>) {
        match &self.listener {
            Some(accepts) => {
                let ghost models = accept_models_of(accepts@);
                let mut logs: Vec<SessionLog> = Vec::new();
                let mut i: usize = 0;
                proof {
                    assert(models.skip(0) =~= models);
                    assert(logs_model(logs@) + sessions_of(models) =~~= sessions_of(models));
                }
                while i < accepts.len()
                    invariant
                        i <= accepts@.len(),
                        models == accept_models_of(accepts@),
                        accepts_valid(models),
                        logs_model(logs@) + sessions_of(models.skip(i as int))
                            =~~= sessions_of(models),
                    decreases accepts@.len() - i,
                {
                    proof {
                        assert(models[i as int] == accepts@[i as int].model());
                        assert(models.skip(i as int)[0] == models[i as int]);
                        assert(models.skip(i as int).drop_first() =~= models.skip(i + 1));
                    }
                    match &accepts[i] {
                        AcceptOutcome::Conn(reads) => {
                            let ghost prev = logs_model(logs@);
                            let log = Self::handle_client(reads);
                            logs.push(log);
                            proof {
                                assert(logs_model(logs@)
                                    =~~= prev + seq![session_of(models_of(reads@))]);
                                assert(sessions_of(models.skip(i as int))
                                    == seq![session_of(models_of(reads@))]
                                        + sessions_of(models.skip(i + 1)));
                                assert(logs_model(logs@) + sessions_of(models.skip(i + 1))
                                    =~~= sessions_of(models));
                            }
                        },
                        AcceptOutcome::Failed => {
                            proof {
                                assert(sessions_of(models.skip(i as int))
                                    == sessions_of(models.skip(i + 1)));
                            }
                        },
                    }
                    i = i + 1;
                }
                proof {
                    assert(models.skip(i as int) =~= Seq::<AcceptModel>::empty());
                    assert(logs_model(logs@) + Seq::<SessionModel>::empty()
                        =~~= logs_model(logs@));
                }
                Ok(logs)
            },
            None => Err(ListenerError::NotDefined),
        }
    }
}

} // verus!
