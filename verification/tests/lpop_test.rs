use valkyrie::network::connection_handler::process_input;
use valkyrie::storage::engine::StorageEngine;

// https://redis.io/docs/latest/commands/lpop/

fn send(engine: &mut StorageEngine, request: &str, expected: &str) {
    let (out, consumed, pending) = process_input(engine, request.as_bytes());
    assert!(pending.is_none());
    assert_eq!(consumed, request.len());
    assert_eq!(out.as_slice(), expected.as_bytes());
}

// Null reply when key does not exist (no count)
#[test]
fn lpop_nonexistent_key_no_count_returns_null() {
    let mut engine = StorageEngine::new(3);

    // LPOP mylist
    send(&mut engine, "*2\r\n$4\r\nLPOP\r\n$6\r\nmylist\r\n", "$-1\r\n");
}

// Null reply (Null Array) when key does not exist and count is provided
#[test]
fn lpop_nonexistent_key_with_count_returns_null_array() {
    let mut engine = StorageEngine::new(3);

    // LPOP mylist 2
    send(&mut engine, "*3\r\n$4\r\nLPOP\r\n$6\r\nmylist\r\n$1\r\n2\r\n", "*-1\r\n");
}

// Pop single element from head
#[test]
fn lpop_single_element() {
    let mut engine = StorageEngine::new(3);

    // RPUSH mylist a b c
    send(
        &mut engine,
        "*5\r\n$5\r\nRPUSH\r\n$6\r\nmylist\r\n$1\r\na\r\n$1\r\nb\r\n$1\r\nc\r\n",
        ":3\r\n",
    );

    // LPOP mylist -> "a"
    send(&mut engine, "*2\r\n$4\r\nLPOP\r\n$6\r\nmylist\r\n", "$1\r\na\r\n");
}

// Pop multiple elements from head with count
#[test]
fn lpop_multiple_elements_with_count() {
    let mut engine = StorageEngine::new(3);

    // RPUSH nums 1 2 3
    send(
        &mut engine,
        "*5\r\n$5\r\nRPUSH\r\n$4\r\nnums\r\n$1\r\n1\r\n$1\r\n2\r\n$1\r\n3\r\n",
        ":3\r\n",
    );

    // LPOP nums 2 -> [1, 2]
    send(
        &mut engine,
        "*3\r\n$4\r\nLPOP\r\n$4\r\nnums\r\n$1\r\n2\r\n",
        "*2\r\n$1\r\n1\r\n$1\r\n2\r\n",
    );
}

// Pop with count larger than list length -> returns only available elements
#[test]
fn lpop_count_larger_than_length() {
    let mut engine = StorageEngine::new(3);

    // RPUSH xs a b
    send(
        &mut engine,
        "*4\r\n$5\r\nRPUSH\r\n$2\r\nxs\r\n$1\r\na\r\n$1\r\nb\r\n",
        ":2\r\n",
    );

    // LPOP xs 10 -> [a, b]
    send(
        &mut engine,
        "*3\r\n$4\r\nLPOP\r\n$2\r\nxs\r\n$2\r\n10\r\n",
        "*2\r\n$1\r\na\r\n$1\r\nb\r\n",
    );

    // LPOP xs (now empty) -> $-1
    send(&mut engine, "*2\r\n$4\r\nLPOP\r\n$2\r\nxs\r\n", "$-1\r\n");
}

// Count = 0 -> empty array
#[test]
fn lpop_count_zero_returns_empty_array() {
    let mut engine = StorageEngine::new(3);

    // RPUSH q v1
    send(&mut engine, "*3\r\n$5\r\nRPUSH\r\n$1\r\nq\r\n$2\r\nv1\r\n", ":1\r\n");

    // LPOP q 0 -> *0
    send(&mut engine, "*3\r\n$4\r\nLPOP\r\n$1\r\nq\r\n$1\r\n0\r\n", "*0\r\n");
}

// Error: not enough arguments
#[test]
fn lpop_not_enough_arguments() {
    let mut engine = StorageEngine::new(3);

    // LPOP (no key)
    send(
        &mut engine,
        "*1\r\n$4\r\nLPOP\r\n",
        "-Not enough arguments for LPOP command\r\n",
    );
}

// Error: key must be BulkString
#[test]
fn lpop_key_wrong_type_integer() {
    let mut engine = StorageEngine::new(3);

    // LPOP :1
    send(
        &mut engine,
        "*2\r\n$4\r\nLPOP\r\n:1\r\n",
        "-LPOP key is not BulkString\r\n",
    );
}

// Error: count wrong type (SimpleString)
#[test]
fn lpop_count_wrong_type_simplestring() {
    let mut engine = StorageEngine::new(3);

    // LPOP mykey +foo
    send(
        &mut engine,
        "*3\r\n$4\r\nLPOP\r\n$5\r\nmykey\r\n+foo\r\n",
        "-LPOP count is not BulkString\r\n",
    );
}

// Error: count not a number
#[test]
fn lpop_count_not_a_number() {
    let mut engine = StorageEngine::new(3);

    send(
        &mut engine,
        "*3\r\n$4\r\nLPOP\r\n$5\r\nmykey\r\n$2\r\nab\r\n",
        "-Failed to parse LPOP count parameter 'ab' as unsigned integer\r\n",
    );
}

// Error: operate on a string key
#[test]
fn lpop_on_string_key_fails() {
    let mut engine = StorageEngine::new(3);

    // SET skey sval
    send(
        &mut engine,
        "*3\r\n$3\r\nSET\r\n$4\r\nskey\r\n$4\r\nsval\r\n",
        "+OK\r\n",
    );

    // LPOP skey -> error
    send(
        &mut engine,
        "*2\r\n$4\r\nLPOP\r\n$4\r\nskey\r\n",
        "-'skey' is not a list.\r\n",
    );
}
