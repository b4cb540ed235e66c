//! Long messages: the buffer-sized chunking and the echo of each chunk.

use echo_server::chunks::split_chunks;
use echo_server::handler::ConnectionHandler;
use echo_server::handler::HandleClient;
use echo_server::worker::ReadOutcome;
use echo_server::worker::SessionEnd;
use echo_server::worker::BUFFER_LEN;

#[test]
fn empty_message_has_no_chunks() {
    assert!(split_chunks(&Vec::new()).is_empty());
}

#[test]
fn message_filling_the_buffer_is_one_chunk() {
    let msg = vec![5u8; BUFFER_LEN];
    assert_eq!(split_chunks(&msg), vec![msg]);
}

#[test]
fn one_byte_over_the_buffer_makes_two_chunks() {
    let msg: Vec<u8> = (0..65u32).map(|i| i as u8).collect();
    let chunks = split_chunks(&msg);
    assert_eq!(chunks.len(), 2);
    assert_eq!(chunks[0], msg[..64].to_vec());
    assert_eq!(chunks[1], vec![64u8]);
}

#[test]
fn chunk_count_is_len_ceil_div_buffer() {
    for len in [1usize, 63, 64, 65, 128, 129, 1000] {
        let msg = vec![9u8; len];
        let chunks = split_chunks(&msg);
        assert_eq!(chunks.len(), (len + BUFFER_LEN - 1) / BUFFER_LEN);
    }
}

#[test]
fn long_message_echoed_chunk_for_chunk() {
    let msg: Vec<u8> = (0..150u32).map(|i| (i * 7 % 256) as u8).collect();
    let chunks = split_chunks(&msg);
    assert_eq!(chunks.len(), 3);

    let mut reads: Vec<ReadOutcome> = chunks.iter().cloned().map(ReadOutcome::Data).collect();
    reads.push(ReadOutcome::Closed);
    let log = ConnectionHandler::handle_client(&reads);

    assert_eq!(log.end, SessionEnd::PeerClosed);
    assert_eq!(log.echoed, chunks);
    let rejoined: Vec<u8> = log.echoed.concat();
    assert_eq!(rejoined, msg);
}
