//! How a long message crosses the wire: the worker reads into a fixed
//! 64-byte buffer, so a message longer than [`BUFFER_LEN`] arrives — and is
//! echoed — as a run of full buffers followed by the remainder. This module
//! pins that chunking down: [`chunks_of`] is the canonical split,
//! [`split_chunks`] computes it, and the lemmas show the split loses
//! nothing, reorders nothing, and has exactly `ceil(len / 64)` pieces.

use vstd::prelude::*;

use crate::worker::BUFFER_LEN;
use crate::worker::read_valid;
use crate::worker::ReadModel;

verus! {

/// The canonical split of a message into buffer-sized chunks: full 64-byte
/// chunks, then whatever remains. The empty message has no chunks.
pub open spec fn chunks_of(s: Seq<u8>) -> Seq<Seq<u8>>
    decreases s.len(),
{
    if s.len() == 0 {
        Seq::empty()
    } else if s.len() <= BUFFER_LEN {
        seq![s]
    } else {
        seq![s.take(BUFFER_LEN as int)] + chunks_of(s.skip(BUFFER_LEN as int))
    }
}

/// Concatenating the chunks gives the message back: the split loses no
/// byte and moves none.
pub proof fn lemma_chunks_flatten(s: Seq<u8>)
    ensures
        chunks_of(s).flatten() == s,
    decreases s.len(),
{
    if s.len() == 0 {
        assert(chunks_of(s).flatten() =~= s);
    } else if s.len() <= BUFFER_LEN {
        chunks_of(s).lemma_flatten_one_element();
        assert(chunks_of(s).first() == s);
    } else {
        let head = s.take(BUFFER_LEN as int);
        let tail = s.skip(BUFFER_LEN as int);
        lemma_chunks_flatten(tail);
        assert(chunks_of(s).drop_first() =~~= chunks_of(tail));
        assert(chunks_of(s).first() == head);
        assert(chunks_of(s).flatten() == head + chunks_of(tail).flatten());
        assert(head + tail =~= s);
    }
}

/// The split has exactly `ceil(len / 64)` chunks.
pub proof fn lemma_chunks_count(s: Seq<u8>)
    ensures
        chunks_of(s).len() == (s.len() + BUFFER_LEN - 1) / (BUFFER_LEN as int),
    decreases s.len(),
{
    if s.len() == 0 {
    } else if s.len() <= BUFFER_LEN {
        assert((s.len() + BUFFER_LEN - 1) / (BUFFER_LEN as int) == 1) by (nonlinear_arith)
            requires 1 <= s.len() <= BUFFER_LEN == 64;
    } else {
        let tail = s.skip(BUFFER_LEN as int);
        lemma_chunks_count(tail);
        assert(1 + (tail.len() + BUFFER_LEN - 1) / (BUFFER_LEN as int)
            == (s.len() + BUFFER_LEN - 1) / (BUFFER_LEN as int)) by (nonlinear_arith)
            requires tail.len() == s.len() - BUFFER_LEN && s.len() > BUFFER_LEN == 64;
    }
}

/// Every chunk of the split is a well-formed read: nonempty and no larger
/// than the worker's buffer.
pub proof fn lemma_chunks_valid(s: Seq<u8>)
    ensures
        forall|i: int| 0 <= i < chunks_of(s).len()
            ==> read_valid(ReadModel::Data(#[trigger] chunks_of(s)[i])),
    decreases s.len(),
{
    if s.len() == 0 {
    } else if s.len() <= BUFFER_LEN {
        assert(chunks_of(s)[0] == s);
    } else {
        let tail = s.skip(BUFFER_LEN as int);
        lemma_chunks_valid(tail);
        assert forall|i: int| 0 <= i < chunks_of(s).len()
            implies read_valid(ReadModel::Data(#[trigger] chunks_of(s)[i])) by {
            if i == 0 {
                assert(chunks_of(s)[0] == s.take(BUFFER_LEN as int));
            } else {
                assert(chunks_of(s)[i] == chunks_of(tail)[i - 1]);
            }
        }
    }
}

/// Split a message into the chunks of [`chunks_of`]: the successive
/// read-sized pieces a worker echoes it back in.
pub fn split_chunks(msg: &Vec<u8>) -> (r: Vec<Vec<u8>>)
    ensures
        r.deep_view() == chunks_of(msg@),
{
    let mut r: Vec<Vec<u8>> = Vec::new();
    let mut start: usize = 0;
    proof {
        assert(msg@.skip(0) =~= msg@);
        assert(r.deep_view() + chunks_of(msg@) =~~= chunks_of(msg@));
    }
    while start < msg.len()
        invariant
            start <= msg@.len(),
            r.deep_view() + chunks_of(msg@.skip(start as int)) =~~= chunks_of(msg@),
        decreases msg@.len() - start,
    {
        let rest = msg.len() - start;
        let take = if rest < BUFFER_LEN { rest } else { BUFFER_LEN };
        let mut chunk: Vec<u8> = Vec::new();
        let mut i: usize = 0;
        while i < take
            invariant
                i <= take,
                start + take <= msg@.len(),
                msg@.len() <= usize::MAX,
                chunk@ == msg@.skip(start as int).take(i as int),
            decreases take - i,
        {
            chunk.push(msg[start + i]);
            proof {
                assert(chunk@ =~= msg@.skip(start as int).take(i + 1));
            }
            i = i + 1;
        }
        proof {
            let rest_seq = msg@.skip(start as int);
            assert(rest_seq.len() == rest);
            if rest <= BUFFER_LEN {
                assert(chunk@ =~= rest_seq);
                assert(chunks_of(rest_seq) == seq![rest_seq]);
                assert(msg@.skip(start + take as int) =~= Seq::<u8>::empty());
                assert(chunks_of(rest_seq)
                    =~~= seq![chunk@] + chunks_of(msg@.skip(start + take as int)));
            } else {
                assert(chunk@ =~= rest_seq.take(BUFFER_LEN as int));
                assert(rest_seq.skip(BUFFER_LEN as int) =~= msg@.skip(start + take as int));
                assert(chunks_of(rest_seq)
                    =~~= seq![chunk@] + chunks_of(msg@.skip(start + take as int)));
            }
        }
        let ghost prev = r.deep_view();
        let ghost pushed = chunk@;
        r.push(chunk);
        proof {
            assert(r.deep_view() =~~= prev + seq![pushed]);
            assert(r.deep_view() + chunks_of(msg@.skip(start + take as int))
                =~~= chunks_of(msg@));
        }
        start = start + take;
    }
    proof {
        assert(msg@.skip(start as int) =~= Seq::<u8>::empty());
        assert(r.deep_view() =~~= chunks_of(msg@));
    }
    r
}

} // verus!
