use valkyrie::network::connection_handler::{blpop_timeout_reply, process_input};
use valkyrie::protocol::redis_serialization_protocol::{RedisType, ToRespBytes};
use valkyrie::storage::engine::StorageEngine;

// https://redis.io/docs/latest/commands/blpop/
// BLPOP key [key ...] timeout
//
// Behavior:
// - Returns Array [key, value] when an element is popped
// - Returns Null Array (*-1) on timeout/no keys ready
// - Error messages follow the command's parser
// - Operating on a string key yields error: "'<key>' is not a list."

fn send(engine: &mut StorageEngine, request: &str, expected: &str) {
    let (out, consumed, pending) = process_input(engine, request.as_bytes());
    assert!(pending.is_none());
    assert_eq!(consumed, request.len());
    assert_eq!(out.as_slice(), expected.as_bytes());
}

// Non-existent key with positive timeout blocks; when the deadline passes
// with no push, the reply is a Null Array.
#[test]
fn blpop_nonexistent_key_times_out_returns_null_array() {
    let mut engine = StorageEngine::new(3);

    // BLPOP mylist 0.05 (50ms)
    let req = "*3\r\n$5\r\nBLPOP\r\n$6\r\nmylist\r\n$4\r\n0.05\r\n";
    let (out, consumed, pending) = process_input(&mut engine, req.as_bytes());
    assert_eq!(out.as_slice(), b"");
    assert_eq!(consumed, 0);
    let cmd = pending.expect("the pop must wait");
    assert_eq!(cmd.timeout_ms, 50);

    // No push arrives before the deadline: the runtime answers a null array.
    let timeout_reply = blpop_timeout_reply().to_resp_bytes();
    assert_eq!(timeout_reply.as_slice(), b"*-1\r\n");

    // The waiting pop still finds nothing when re-run.
    assert!(cmd.try_immediate(&mut engine).is_none());
}

// Pop from existing list returns [key, value]
#[test]
fn blpop_single_key_pops_head_returns_key_and_value() {
    let mut engine = StorageEngine::new(3);

    // RPUSH mylist a b c
    send(
        &mut engine,
        "*5\r\n$5\r\nRPUSH\r\n$6\r\nmylist\r\n$1\r\na\r\n$1\r\nb\r\n$1\r\nc\r\n",
        ":3\r\n",
    );

    // BLPOP mylist 1
    send(
        &mut engine,
        "*3\r\n$5\r\nBLPOP\r\n$6\r\nmylist\r\n$1\r\n1\r\n",
        "*2\r\n$6\r\nmylist\r\n$1\r\na\r\n",
    );
}

// Multi-key: returns first non-empty list name and value
#[test]
fn blpop_multiple_keys_returns_first_non_empty() {
    let mut engine = StorageEngine::new(3);

    // Ensure list1 is empty/non-existent, list2 has an element
    send(&mut engine, "*3\r\n$5\r\nRPUSH\r\n$5\r\nlist2\r\n$1\r\nx\r\n", ":1\r\n");

    // BLPOP list1 list2 1 -> should return [list2, x]
    send(
        &mut engine,
        "*4\r\n$5\r\nBLPOP\r\n$5\r\nlist1\r\n$5\r\nlist2\r\n$1\r\n1\r\n",
        "*2\r\n$5\r\nlist2\r\n$1\r\nx\r\n",
    );
}

// Blocking with timeout=0 unblocks when another connection pushes to the list
#[test]
fn blpop_block_then_unblock_with_push_from_other_client() {
    let mut engine = StorageEngine::new(3);

    // First connection sends BLPOP mylist 0 (block indefinitely).
    let blpop_req = "*3\r\n$5\r\nBLPOP\r\n$6\r\nmylist\r\n$1\r\n0\r\n";
    let (out, consumed, pending) = process_input(&mut engine, blpop_req.as_bytes());
    assert_eq!(out.as_slice(), b"");
    assert_eq!(consumed, 0);
    let cmd = pending.expect("the pop must wait");
    assert_eq!(cmd.timeout_ms, 0);

    // Second connection: RPUSH mylist v -> :1, which wakes the waiters.
    send(&mut engine, "*3\r\n$5\r\nRPUSH\r\n$6\r\nmylist\r\n$1\r\nv\r\n", ":1\r\n");

    // The woken pop re-runs its attempt and receives ["mylist", "v"].
    let reply = cmd.try_immediate(&mut engine).expect("the push must be seen");
    assert_eq!(reply.to_resp_bytes().as_slice(), b"*2\r\n$6\r\nmylist\r\n$1\r\nv\r\n");
}

// Error: not enough arguments
#[test]
fn blpop_not_enough_arguments() {
    let mut engine = StorageEngine::new(3);

    // BLPOP
    send(
        &mut engine,
        "*1\r\n$5\r\nBLPOP\r\n",
        "-Incomplete BLPOP command, expected at least 3 values: 'BLPOP key timeout'\r\n",
    );
}

// Error: key must be BulkString
#[test]
fn blpop_key_wrong_type_integer() {
    let mut engine = StorageEngine::new(3);

    // BLPOP :1 1
    send(
        &mut engine,
        "*3\r\n$5\r\nBLPOP\r\n:1\r\n$1\r\n1\r\n",
        "-BLPOP incorrect list key, not BulkString\r\n",
    );
}

// Error: timeout wrong type (SimpleString)
#[test]
fn blpop_timeout_wrong_type_simplestring() {
    let mut engine = StorageEngine::new(3);

    // BLPOP mykey +foo
    send(
        &mut engine,
        "*3\r\n$5\r\nBLPOP\r\n$5\r\nmykey\r\n+foo\r\n",
        "-BLPOP incorrect 'timeout' argument\r\n",
    );
}

// Error: timeout not a number (BulkString but invalid)
#[test]
fn blpop_timeout_invalid_nonnumeric() {
    let mut engine = StorageEngine::new(3);

    // BLPOP mykey abc
    send(
        &mut engine,
        "*3\r\n$5\r\nBLPOP\r\n$5\r\nmykey\r\n$3\r\nabc\r\n",
        "-BLPOP 'timeout' must be a finite, non-negative numbe\r\n",
    );
}

// Error: timeout negative number
#[test]
fn blpop_timeout_negative_number() {
    let mut engine = StorageEngine::new(3);

    // BLPOP mykey -1
    send(
        &mut engine,
        "*3\r\n$5\r\nBLPOP\r\n$5\r\nmykey\r\n$2\r\n-1\r\n",
        "-BLPOP 'timeout' must be a finite, non-negative number\r\n",
    );
}

// Error: operate on a string key
#[test]
fn blpop_on_string_key_fails() {
    let mut engine = StorageEngine::new(3);

    // SET skey sval
    send(
        &mut engine,
        "*3\r\n$3\r\nSET\r\n$4\r\nskey\r\n$4\r\nsval\r\n",
        "+OK\r\n",
    );

    // BLPOP skey 1 -> error
    send(
        &mut engine,
        "*3\r\n$5\r\nBLPOP\r\n$4\r\nskey\r\n$1\r\n1\r\n",
        "-'skey' is not a list.\r\n",
    );
}

// Fractional timeouts convert to milliseconds.
#[test]
fn blpop_fractional_timeout_milliseconds() {
    let mut engine = StorageEngine::new(3);

    let (_, _, pending) = process_input(
        &mut engine,
        "*3\r\n$5\r\nBLPOP\r\n$1\r\nk\r\n$3\r\n1.5\r\n".as_bytes(),
    );
    assert_eq!(pending.expect("must wait").timeout_ms, 1500);

    let (_, _, pending) = process_input(
        &mut engine,
        "*3\r\n$5\r\nBLPOP\r\n$1\r\nk\r\n$2\r\n.5\r\n".as_bytes(),
    );
    assert_eq!(pending.expect("must wait").timeout_ms, 500);
}
