use valkyrie::network::connection_handler::{process_input, too_large_reply, MAX_REQUEST_SIZE};
use valkyrie::protocol::redis_serialization_protocol::ToRespBytes;
use valkyrie::storage::engine::{hash_bytes, StorageEngine};

fn send(engine: &mut StorageEngine, request: &str, expected: &str) {
    let (out, consumed, pending) = process_input(engine, request.as_bytes());
    assert!(pending.is_none());
    assert_eq!(consumed, request.len());
    assert_eq!(out.as_slice(), expected.as_bytes());
}

// A short session exercising several commands over one connection.
#[test]
fn run_valkyrie_and_send_few_commands() {
    let mut engine = StorageEngine::new(3);

    send(&mut engine, "*1\r\n$4\r\nPING\r\n", "+PONG\r\n");
    send(&mut engine, "*2\r\n$4\r\nECHO\r\n$5\r\nhello\r\n", "$5\r\nhello\r\n");
    send(&mut engine, "*1\r\n$7\r\nCOMMAND\r\n", "*0\r\n");
    send(&mut engine, "*3\r\n$3\r\nSET\r\n$3\r\nfoo\r\n$3\r\nbar\r\n", "+OK\r\n");
    send(&mut engine, "*2\r\n$3\r\nGET\r\n$3\r\nfoo\r\n", "$3\r\nbar\r\n");
}

// Pipelining: two requests in one buffer produce both replies in order.
#[test]
fn pipelined_requests_reply_in_order() {
    let mut engine = StorageEngine::new(3);

    let both = "*1\r\n$4\r\nPING\r\n*2\r\n$4\r\nECHO\r\n$2\r\nhi\r\n";
    send(&mut engine, both, "+PONG\r\n$2\r\nhi\r\n");
}

// An incomplete frame consumes nothing; completing it later replays cleanly.
#[test]
fn incomplete_frame_consumes_nothing() {
    let mut engine = StorageEngine::new(3);

    let partial = "*1\r\n$4\r\nPI";
    let (out, consumed, pending) = process_input(&mut engine, partial.as_bytes());
    assert!(out.is_empty());
    assert_eq!(consumed, 0);
    assert!(pending.is_none());

    // A complete request plus a trailing partial one: only the complete
    // frame is consumed.
    let mixed = "*1\r\n$4\r\nPING\r\n*2\r\n$4\r\nEC";
    let (out, consumed, pending) = process_input(&mut engine, mixed.as_bytes());
    assert_eq!(out.as_slice(), b"+PONG\r\n");
    assert_eq!(consumed, "*1\r\n$4\r\nPING\r\n".len());
    assert!(pending.is_none());
}

// Unknown commands name themselves in the error.
#[test]
fn unknown_command_is_reported() {
    let mut engine = StorageEngine::new(3);

    send(
        &mut engine,
        "*1\r\n$5\r\nHELLO\r\n",
        "-Command type is not defined or unknown HELLO\r\n",
    );
}

// Requests that are not arrays of bulk strings are rejected but the
// connection keeps going.
#[test]
fn ill_formed_request_keeps_connection() {
    let mut engine = StorageEngine::new(3);

    send(&mut engine, "+PING\r\n", "-Incorrect command type format\r\n");
    send(&mut engine, "*0\r\n", "-Incorrect command type format\r\n");
    send(&mut engine, "*1\r\n:7\r\n", "-Incorrect command type format\r\n");
    send(&mut engine, "$3\r\nxyz\r\n", "-Incorrect command type format\r\n");
    send(&mut engine, "*1\r\n$4\r\nPING\r\n", "+PONG\r\n");
}

// Semantically invalid frames come back as simple errors.
#[test]
fn invalid_frame_is_echoed_as_error() {
    let mut engine = StorageEngine::new(3);

    send(&mut engine, "$-2\r\n", "-Invalid bulk string length -2\r\n");
    send(&mut engine, "*abc\r\n", "-Array length not a number abc\r\n");
}

// The oversize guard replies with the pinned text and a 64 KiB cap.
#[test]
fn request_size_cap() {
    assert_eq!(MAX_REQUEST_SIZE, 64 * 1024);
    assert_eq!(too_large_reply().to_resp_bytes().as_slice(), b"-Request too large\r\n");
}

// The shard hash is a stable function of the key bytes.
#[test]
fn key_hash_is_stable() {
    assert_eq!(hash_bytes(b"mykey"), hash_bytes(b"mykey"));
    assert_ne!(hash_bytes(b"mykey"), hash_bytes(b"other"));
    // Fowler-Noll-Vo 1a, 64 bits, of the empty string is the offset basis.
    assert_eq!(hash_bytes(b""), 14695981039346656037);
}

// Keys land on the same shard however many I/O workers feed the engine:
// the same commands against one shard or many give the same replies.
#[test]
fn shard_count_does_not_change_replies() {
    for shards in [1usize, 2, 7] {
        let mut engine = StorageEngine::new(shards);
        send(&mut engine, "*3\r\n$3\r\nSET\r\n$1\r\nk\r\n$1\r\nv\r\n", "+OK\r\n");
        send(&mut engine, "*3\r\n$5\r\nRPUSH\r\n$1\r\nl\r\n$1\r\nx\r\n", ":1\r\n");
        send(&mut engine, "*2\r\n$3\r\nGET\r\n$1\r\nk\r\n", "$1\r\nv\r\n");
        send(&mut engine, "*2\r\n$4\r\nLLEN\r\n$1\r\nl\r\n", ":1\r\n");
    }
}

// After popping the last element the key is gone: LLEN sees zero and
// LRANGE reports the list as absent.
#[test]
fn popping_last_element_removes_key() {
    let mut engine = StorageEngine::new(3);

    send(&mut engine, "*3\r\n$5\r\nRPUSH\r\n$1\r\nk\r\n$1\r\nv\r\n", ":1\r\n");
    send(&mut engine, "*2\r\n$4\r\nLPOP\r\n$1\r\nk\r\n", "$1\r\nv\r\n");
    send(&mut engine, "*2\r\n$4\r\nLLEN\r\n$1\r\nk\r\n", ":0\r\n");
    send(
        &mut engine,
        "*4\r\n$6\r\nLRANGE\r\n$1\r\nk\r\n$1\r\n0\r\n$2\r\n-1\r\n",
        "-No list found with name 'k'\r\n",
    );
}
