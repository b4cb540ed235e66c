//! The properties the echo service stands on, each proved once and for all
//! over the spec-level session model: what a worker echoes for a short
//! message, for a long one, after a read error, after a peer close, and why
//! one connection's session can never touch another's.

use vstd::prelude::*;

use crate::chunks::chunks_of;
use crate::chunks::lemma_chunks_count;
use crate::chunks::lemma_chunks_flatten;
use crate::chunks::lemma_chunks_valid;
use crate::handler::session_of;
use crate::handler::sessions_of;
use crate::handler::AcceptModel;
use crate::handler::SessionModel;
use crate::worker::echoes_of;
use crate::worker::end_of;
use crate::worker::read_valid;
use crate::worker::reads_valid;
use crate::worker::ReadModel;
use crate::worker::SessionEnd;
use crate::worker::BUFFER_LEN;

verus! {

/// A message that fits the worker's buffer, sent in one write and so
/// delivered in one read, is echoed back exactly and unchanged, in a single
/// read/write cycle, and the session then ends cleanly with the peer's
/// close.
pub proof fn lemma_echo_single(s: Seq<u8>)
    requires
        1 <= s.len() <= BUFFER_LEN,
    ensures
        session_of(seq![ReadModel::Data(s), ReadModel::Closed])
            == (SessionModel { echoed: seq![s], end: SessionEnd::PeerClosed }),
{
    let script = seq![ReadModel::Data(s), ReadModel::Closed];
    assert(script.drop_first() =~= seq![ReadModel::Closed]);
    assert(echoes_of(script) == seq![s] + echoes_of(seq![ReadModel::Closed]));
    assert(seq![s] + Seq::<Seq<u8>>::empty() =~= seq![s]);
    assert(echoes_of(script) =~~= seq![s]);
    assert(echoes_of(seq![ReadModel::Closed]) == Seq::<Seq<u8>>::empty());
    assert(end_of(seq![ReadModel::Closed]) == SessionEnd::PeerClosed);
    assert(end_of(script) == SessionEnd::PeerClosed);
}

/// A script that sends the given payloads in order and then closes is
/// echoed payload for payload: nothing is dropped, joined, or reordered,
/// and the session ends cleanly.
pub proof fn lemma_echo_script(payloads: Seq<Seq<u8>>)
    ensures
        echoes_of(payloads.map_values(|c: Seq<u8>| ReadModel::Data(c))
            + seq![ReadModel::Closed]) == payloads,
        end_of(payloads.map_values(|c: Seq<u8>| ReadModel::Data(c))
            + seq![ReadModel::Closed]) == SessionEnd::PeerClosed,
    decreases payloads.len(),
{
    let to_read = |c: Seq<u8>| ReadModel::Data(c);
    let script = payloads.map_values(to_read) + seq![ReadModel::Closed];
    if payloads.len() == 0 {
        assert(script =~= seq![ReadModel::Closed]);
        assert(echoes_of(script) =~~= payloads);
    } else {
        let rest = payloads.drop_first();
        lemma_echo_script(rest);
        assert(script[0] == ReadModel::Data(payloads[0]));
        assert(script.drop_first() =~= rest.map_values(to_read) + seq![ReadModel::Closed]);
        assert(echoes_of(script) == seq![payloads[0]] + echoes_of(script.drop_first()));
        assert(seq![payloads[0]] + rest =~= payloads);
        assert(echoes_of(script) =~~= payloads);
    }
}

/// A message of any length, delivered read by read as the buffer-sized
/// chunks of [`chunks_of`], is echoed in exactly `ceil(len / 64)` chunks
/// whose concatenation is the message itself, and the session ends cleanly.
pub proof fn lemma_echo_chunked(s: Seq<u8>)
    ensures
        reads_valid(chunks_of(s).map_values(|c: Seq<u8>| ReadModel::Data(c))
            + seq![ReadModel::Closed]),
        echoes_of(chunks_of(s).map_values(|c: Seq<u8>| ReadModel::Data(c))
            + seq![ReadModel::Closed]) == chunks_of(s),
        end_of(chunks_of(s).map_values(|c: Seq<u8>| ReadModel::Data(c))
            + seq![ReadModel::Closed]) == SessionEnd::PeerClosed,
        chunks_of(s).flatten() == s,
        chunks_of(s).len() == (s.len() + BUFFER_LEN - 1) / (BUFFER_LEN as int),
{
    let to_read = |c: Seq<u8>| ReadModel::Data(c);
    let chunks = chunks_of(s);
    let script = chunks.map_values(to_read) + seq![ReadModel::Closed];
    lemma_echo_script(chunks);
    lemma_chunks_flatten(s);
    lemma_chunks_count(s);
    lemma_chunks_valid(s);
    assert forall|i: int| 0 <= i < script.len() implies read_valid(#[trigger] script[i]) by {
        if i < chunks.len() {
            assert(script[i] == ReadModel::Data(chunks[i]));
        } else {
            assert(script[i] == ReadModel::Closed);
        }
    }
}

/// When the very first read fails, the worker terminates at once with a
/// read error: it writes nothing, whatever the peer might have gone on to
/// send, and it never retries.
pub proof fn lemma_read_error_writes_nothing(rest: Seq<ReadModel>)
    ensures
        session_of(seq![ReadModel::Failed] + rest)
            == (SessionModel { echoed: Seq::empty(), end: SessionEnd::ReadError }),
{
    let script = seq![ReadModel::Failed] + rest;
    assert(script[0] == ReadModel::Failed);
}

/// When the very first read delivers zero bytes — the peer closed its end —
/// the worker terminates cleanly: no write, no error, whatever might have
/// followed.
pub proof fn lemma_peer_close_writes_nothing(rest: Seq<ReadModel>)
    ensures
        session_of(seq![ReadModel::Closed] + rest)
            == (SessionModel { echoed: Seq::empty(), end: SessionEnd::PeerClosed }),
{
    let script = seq![ReadModel::Closed] + rest;
    assert(script[0] == ReadModel::Closed);
}

/// Dispatching the accepts of one script after another yields the sessions
/// of the one and then the sessions of the other: nothing a connection does
/// reaches past itself.
pub proof fn lemma_sessions_append(a: Seq<AcceptModel>, b: Seq<AcceptModel>)
    ensures
        sessions_of(a + b) == sessions_of(a) + sessions_of(b),
    decreases a.len(),
{
    if a.len() == 0 {
        assert(a + b =~= b);
        assert(Seq::<SessionModel>::empty() + sessions_of(b) =~= sessions_of(b));
    } else {
        lemma_sessions_append(a.drop_first(), b);
        assert((a + b)[0] == a[0]);
        assert((a + b).drop_first() =~= a.drop_first() + b);
        match a[0] {
            AcceptModel::Conn(reads) => {
                assert(sessions_of(a + b)
                    =~= sessions_of(a) + sessions_of(b));
            },
            AcceptModel::Failed => {
                assert(sessions_of(a + b)
                    =~= sessions_of(a) + sessions_of(b));
            },
        }
    }
}

/// A fresh connection accepted after any earlier history — workers closed,
/// failed, or skipped accepts alike — gets a session that is a function of
/// its own reads alone: the listener carries no state from one connection
/// to the next.
pub proof fn lemma_fresh_connection_independent(
    prior: Seq<AcceptModel>,
    reads: Seq<ReadModel>,
)
    ensures
        sessions_of(prior + seq![AcceptModel::Conn(reads)])
            == sessions_of(prior).push(session_of(reads)),
{
    let one = seq![AcceptModel::Conn(reads)];
    lemma_sessions_append(prior, one);
    assert(one.drop_first() =~= Seq::<AcceptModel>::empty());
    assert(one[0] == AcceptModel::Conn(reads));
    assert(sessions_of(Seq::<AcceptModel>::empty()) == Seq::<SessionModel>::empty());
    assert(sessions_of(one)
        == seq![session_of(reads)] + Seq::<SessionModel>::empty());
    assert(sessions_of(one) =~= seq![session_of(reads)]);
    assert(sessions_of(prior) + seq![session_of(reads)]
        =~= sessions_of(prior).push(session_of(reads)));
}

} // verus!
