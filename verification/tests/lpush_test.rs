use valkyrie::network::connection_handler::process_input;
use valkyrie::storage::engine::StorageEngine;

// https://redis.io/docs/latest/commands/lpush/

fn send(engine: &mut StorageEngine, request: &str, expected: &str) {
    let (out, consumed, pending) = process_input(engine, request.as_bytes());
    assert!(pending.is_none());
    assert_eq!(consumed, request.len());
    assert_eq!(out.as_slice(), expected.as_bytes());
}

// Happy path: single BulkString value to a new list -> length 1
#[test]
fn lpush_single_value_new_list() {
    let mut engine = StorageEngine::new(3);

    // LPUSH mylist one
    send(&mut engine, "*3\r\n$5\r\nLPUSH\r\n$6\r\nmylist\r\n$3\r\none\r\n", ":1\r\n");
}

// Happy path: multiple BulkString values to a new list -> length equals number of values
#[test]
fn lpush_multiple_values_new_list() {
    let mut engine = StorageEngine::new(3);

    // LPUSH mylist a bb
    send(
        &mut engine,
        "*4\r\n$5\r\nLPUSH\r\n$6\r\nmylist\r\n$1\r\na\r\n$2\r\nbb\r\n",
        ":2\r\n",
    );
}

// Happy path: integer elements are accepted as values (converted to strings)
#[test]
fn lpush_integer_values_accepted() {
    let mut engine = StorageEngine::new(3);

    // LPUSH num :1 :2
    send(&mut engine, "*4\r\n$5\r\nLPUSH\r\n$3\r\nnum\r\n:1\r\n:2\r\n", ":2\r\n");
}

// Happy path: mixed BulkString and Integer values
#[test]
fn lpush_mixed_bulk_and_integer_values() {
    let mut engine = StorageEngine::new(3);

    // LPUSH mixlist one 2 three
    send(
        &mut engine,
        "*5\r\n$5\r\nLPUSH\r\n$7\r\nmixlist\r\n$3\r\none\r\n:2\r\n$5\r\nthree\r\n",
        ":3\r\n",
    );
}

// Happy path: empty BulkString value is allowed
#[test]
fn lpush_empty_string_value() {
    let mut engine = StorageEngine::new(3);

    // LPUSH emptys ""
    send(&mut engine, "*3\r\n$5\r\nLPUSH\r\n$6\r\nemptys\r\n$0\r\n\r\n", ":1\r\n");
}

// Happy path: order semantics - elements are inserted at head from leftmost to rightmost
#[test]
fn lpush_order_semantics() {
    let mut engine = StorageEngine::new(3);

    // LPUSH list a bb ccc -> resulting list should be [ccc, bb, a]
    send(
        &mut engine,
        "*5\r\n$5\r\nLPUSH\r\n$4\r\nlist\r\n$1\r\na\r\n$2\r\nbb\r\n$3\r\nccc\r\n",
        ":3\r\n",
    );

    // LRANGE list 0 -1 -> [ccc, bb, a]
    send(
        &mut engine,
        "*4\r\n$6\r\nLRANGE\r\n$4\r\nlist\r\n$1\r\n0\r\n$2\r\n-1\r\n",
        "*3\r\n$3\r\nccc\r\n$2\r\nbb\r\n$1\r\na\r\n",
    );
}

// Happy path: cumulative pushes increase length
#[test]
fn lpush_on_existing_list_increases_length() {
    let mut engine = StorageEngine::new(3);

    // LPUSH mylist x y  -> 2
    send(
        &mut engine,
        "*4\r\n$5\r\nLPUSH\r\n$6\r\nmylist\r\n$1\r\nx\r\n$1\r\ny\r\n",
        ":2\r\n",
    );

    // LPUSH mylist z    -> 3
    send(&mut engine, "*3\r\n$5\r\nLPUSH\r\n$6\r\nmylist\r\n$1\r\nz\r\n", ":3\r\n");
}

// Interop: GET on a list key should return Null Bulk String (lists are not returned by GET)
#[test]
fn lpush_then_get_returns_null_bulk_string() {
    let mut engine = StorageEngine::new(3);

    // LPUSH lkey v1
    send(&mut engine, "*3\r\n$5\r\nLPUSH\r\n$4\r\nlkey\r\n$2\r\nv1\r\n", ":1\r\n");

    // GET lkey -> $-1
    send(&mut engine, "*2\r\n$3\r\nGET\r\n$4\r\nlkey\r\n", "$-1\r\n");
}

// Error: not enough arguments (requires at least key and one value)
#[test]
fn lpush_not_enough_arguments_only_command() {
    let mut engine = StorageEngine::new(3);

    // LPUSH (no key, no values)
    send(
        &mut engine,
        "*1\r\n$5\r\nLPUSH\r\n",
        "-Not enough arguments for LPUSH command\r\n",
    );
}

// Error: not enough arguments (has key, but no values)
#[test]
fn lpush_not_enough_arguments_only_key() {
    let mut engine = StorageEngine::new(3);

    // LPUSH mylist (no values)
    send(
        &mut engine,
        "*2\r\n$5\r\nLPUSH\r\n$6\r\nmylist\r\n",
        "-Not enough arguments for LPUSH command\r\n",
    );
}

// Error: key must be a BulkString (Integer provided instead)
#[test]
fn lpush_key_wrong_type_integer() {
    let mut engine = StorageEngine::new(3);

    // LPUSH :1 value
    send(
        &mut engine,
        "*3\r\n$5\r\nLPUSH\r\n:1\r\n$5\r\nvalue\r\n",
        "-LPUSH key is not BulkString\r\n",
    );
}

// Error: value is neither BulkString nor Integer (SimpleString used)
#[test]
fn lpush_wrong_value_type_simplestring() {
    let mut engine = StorageEngine::new(3);

    // LPUSH mykey +foo
    send(
        &mut engine,
        "*3\r\n$5\r\nLPUSH\r\n$5\r\nmykey\r\n+foo\r\n",
        "-LPUSH argument is not BulkString or Integer\r\n",
    );
}

// Error: value Null Bulk String is not accepted by current parser/command logic
#[test]
fn lpush_wrong_value_type_null_bulk_string() {
    let mut engine = StorageEngine::new(3);

    // LPUSH mykey $-1
    send(
        &mut engine,
        "*3\r\n$5\r\nLPUSH\r\n$5\r\nmykey\r\n$-1\r\n",
        "-LPUSH argument is not BulkString or Integer\r\n",
    );
}

// Error: pushing into a key that holds a String value
#[test]
fn lpush_on_string_key_fails() {
    let mut engine = StorageEngine::new(3);

    // SET skey sval
    send(
        &mut engine,
        "*3\r\n$3\r\nSET\r\n$4\r\nskey\r\n$4\r\nsval\r\n",
        "+OK\r\n",
    );

    // LPUSH skey v1 -> error
    send(
        &mut engine,
        "*3\r\n$5\r\nLPUSH\r\n$4\r\nskey\r\n$2\r\nv1\r\n",
        "-Can't execute Left Push for a String value, should be List\r\n",
    );
}

// Command name is case-insensitive
#[test]
fn lpush_case_insensitive_command_name() {
    let mut engine = StorageEngine::new(3);

    // "lpush"
    send(&mut engine, "*3\r\n$5\r\nlpush\r\n$4\r\nlist\r\n$1\r\na\r\n", ":1\r\n");

    // "LPush"
    send(&mut engine, "*3\r\n$5\r\nLPush\r\n$4\r\nlist\r\n$1\r\nb\r\n", ":2\r\n");
}
