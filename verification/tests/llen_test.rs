use valkyrie::network::connection_handler::process_input;
use valkyrie::storage::engine::StorageEngine;

// https://redis.io/docs/latest/commands/llen/

fn send(engine: &mut StorageEngine, request: &str, expected: &str) {
    let (out, consumed, pending) = process_input(engine, request.as_bytes());
    assert!(pending.is_none());
    assert_eq!(consumed, request.len());
    assert_eq!(out.as_slice(), expected.as_bytes());
}

// Happy path: LLEN on non-existing key returns 0
#[test]
fn llen_non_existing_key_returns_zero() {
    let mut engine = StorageEngine::new(3);

    // LLEN mylist
    send(&mut engine, "*2\r\n$4\r\nLLEN\r\n$6\r\nmylist\r\n", ":0\r\n");
}

// Happy path: LLEN after pushes returns correct length
#[test]
fn llen_after_pushes_returns_length() {
    let mut engine = StorageEngine::new(3);

    // RPUSH mylist a b
    send(
        &mut engine,
        "*4\r\n$5\r\nRPUSH\r\n$6\r\nmylist\r\n$1\r\na\r\n$1\r\nb\r\n",
        ":2\r\n",
    );

    // LLEN mylist -> 2
    let llen_req = "*2\r\n$4\r\nLLEN\r\n$6\r\nmylist\r\n";
    send(&mut engine, llen_req, ":2\r\n");

    // LPUSH mylist c -> list becomes [c, a, b] length 3
    send(&mut engine, "*3\r\n$5\r\nLPUSH\r\n$6\r\nmylist\r\n$1\r\nc\r\n", ":3\r\n");

    // LLEN mylist -> 3
    send(&mut engine, llen_req, ":3\r\n");
}

// Error: LLEN on a String key should return an error
#[test]
fn llen_on_string_key_fails() {
    let mut engine = StorageEngine::new(3);

    // SET skey sval
    send(
        &mut engine,
        "*3\r\n$3\r\nSET\r\n$4\r\nskey\r\n$4\r\nsval\r\n",
        "+OK\r\n",
    );

    // LLEN skey -> error "'skey' is not a list."
    send(
        &mut engine,
        "*2\r\n$4\r\nLLEN\r\n$4\r\nskey\r\n",
        "-'skey' is not a list.\r\n",
    );
}

// Error: not enough arguments
#[test]
fn llen_not_enough_arguments() {
    let mut engine = StorageEngine::new(3);

    // LLEN (no key)
    send(
        &mut engine,
        "*1\r\n$4\r\nLLEN\r\n",
        "-Not enough arguments for LLEN command\r\n",
    );
}

// Error: key must be a BulkString
#[test]
fn llen_key_wrong_type_integer() {
    let mut engine = StorageEngine::new(3);

    // LLEN :1
    send(
        &mut engine,
        "*2\r\n$4\r\nLLEN\r\n:1\r\n",
        "-LLEN argument is not a BulkString\r\n",
    );
}

// Command name is case-insensitive
#[test]
fn llen_case_insensitive_command_name() {
    let mut engine = StorageEngine::new(3);

    // "llen"
    send(&mut engine, "*2\r\n$4\r\nllen\r\n$4\r\nlist\r\n", ":0\r\n");

    // Prepare a list, then "LLen"
    send(&mut engine, "*3\r\n$5\r\nRPUSH\r\n$4\r\nlist\r\n$1\r\na\r\n", ":1\r\n");

    send(&mut engine, "*2\r\n$4\r\nLLen\r\n$4\r\nlist\r\n", ":1\r\n");
}
