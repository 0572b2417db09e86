use valkyrie::network::connection_handler::process_input;
use valkyrie::storage::engine::StorageEngine;
use valkyrie::storage::list_range_storage::ListRangeStorage;

// https://redis.io/docs/latest/commands/lrange/

fn send(engine: &mut StorageEngine, request: &str, expected: &str) {
    let (out, consumed, pending) = process_input(engine, request.as_bytes());
    assert!(pending.is_none());
    assert_eq!(consumed, request.len());
    assert_eq!(out.as_slice(), expected.as_bytes());
}

// Error: non-existent list returns an error
#[test]
fn lrange_nonexistent_list_returns_error() {
    let mut engine = StorageEngine::new(3);

    // LRANGE mylist 0 -1
    send(
        &mut engine,
        "*4\r\n$6\r\nLRANGE\r\n$6\r\nmylist\r\n$1\r\n0\r\n$2\r\n-1\r\n",
        "-No list found with name 'mylist'\r\n",
    );
}

// Error: running LRANGE on a String key should fail
#[test]
fn lrange_on_string_key_fails() {
    let mut engine = StorageEngine::new(3);

    // SET skey sval
    send(
        &mut engine,
        "*3\r\n$3\r\nSET\r\n$4\r\nskey\r\n$4\r\nsval\r\n",
        "+OK\r\n",
    );

    // LRANGE skey 0 -1 -> error
    send(
        &mut engine,
        "*4\r\n$6\r\nLRANGE\r\n$4\r\nskey\r\n$1\r\n0\r\n$2\r\n-1\r\n",
        "-'skey' is not a list.\r\n",
    );
}

// Happy path: typical ranges (positive, negative, out-of-bounds)
#[test]
fn lrange_basic_ranges() {
    let mut engine = StorageEngine::new(3);

    // Prepare: RPUSH list a bb ccc  -> 3
    send(
        &mut engine,
        "*5\r\n$5\r\nRPUSH\r\n$4\r\nlist\r\n$1\r\na\r\n$2\r\nbb\r\n$3\r\nccc\r\n",
        ":3\r\n",
    );

    // LRANGE list 0 -1 -> [a, bb, ccc]
    let resp_all = "*3\r\n$1\r\na\r\n$2\r\nbb\r\n$3\r\nccc\r\n";
    send(
        &mut engine,
        "*4\r\n$6\r\nLRANGE\r\n$4\r\nlist\r\n$1\r\n0\r\n$2\r\n-1\r\n",
        resp_all,
    );

    // LRANGE list 0 1 -> [a, bb]
    send(
        &mut engine,
        "*4\r\n$6\r\nLRANGE\r\n$4\r\nlist\r\n$1\r\n0\r\n$1\r\n1\r\n",
        "*2\r\n$1\r\na\r\n$2\r\nbb\r\n",
    );

    // LRANGE list 1 10 -> [bb, ccc] (end clamped)
    send(
        &mut engine,
        "*4\r\n$6\r\nLRANGE\r\n$4\r\nlist\r\n$1\r\n1\r\n$2\r\n10\r\n",
        "*2\r\n$2\r\nbb\r\n$3\r\nccc\r\n",
    );

    // LRANGE list 5 10 -> [] (start beyond end)
    send(
        &mut engine,
        "*4\r\n$6\r\nLRANGE\r\n$4\r\nlist\r\n$1\r\n5\r\n$2\r\n10\r\n",
        "*0\r\n",
    );

    // LRANGE list -2 -1 -> [bb, ccc] (negative indices)
    send(
        &mut engine,
        "*4\r\n$6\r\nLRANGE\r\n$4\r\nlist\r\n$2\r\n-2\r\n$2\r\n-1\r\n",
        "*2\r\n$2\r\nbb\r\n$3\r\nccc\r\n",
    );
}

// Error: not enough arguments
#[test]
fn lrange_not_enough_arguments() {
    let mut engine = StorageEngine::new(3);

    // LRANGE (no args)
    send(
        &mut engine,
        "*1\r\n$6\r\nLRANGE\r\n",
        "-Not enough arguments for LRANGE command\r\n",
    );

    // LRANGE key start (missing end)
    send(
        &mut engine,
        "*3\r\n$6\r\nLRANGE\r\n$3\r\nkey\r\n$1\r\n0\r\n",
        "-Not enough arguments for LRANGE command\r\n",
    );
}

// Error: incorrect parameter types and parsing errors
#[test]
fn lrange_wrong_types_and_parse_errors() {
    let mut engine = StorageEngine::new(3);

    // Key is Integer instead of BulkString
    send(
        &mut engine,
        "*4\r\n$6\r\nLRANGE\r\n:1\r\n$1\r\n0\r\n$2\r\n-1\r\n",
        "-LRANGE incorrect parameter types, expected BulkString, BulkString, BulkString\r\n",
    );

    // start is not an integer (parse error)
    send(
        &mut engine,
        "*4\r\n$6\r\nLRANGE\r\n$2\r\nmy\r\n$1\r\na\r\n$2\r\n-1\r\n",
        "-Failed to parse LRANGE start parameter 'a' as integer\r\n",
    );

    // end is not an integer (parse error)
    send(
        &mut engine,
        "*4\r\n$6\r\nLRANGE\r\n$2\r\nmy\r\n$1\r\n0\r\n$1\r\nb\r\n",
        "-Failed to parse LRANGE end parameter 'b' as integer\r\n",
    );
}

// Command name is case-insensitive
#[test]
fn lrange_case_insensitive_command_name() {
    let mut engine = StorageEngine::new(3);

    // Prepare: RPUSH list a bb ccc  -> 3
    send(
        &mut engine,
        "*5\r\n$5\r\nRPUSH\r\n$4\r\nlist\r\n$1\r\na\r\n$2\r\nbb\r\n$3\r\nccc\r\n",
        ":3\r\n",
    );

    let resp_all = "*3\r\n$1\r\na\r\n$2\r\nbb\r\n$3\r\nccc\r\n";

    // "lrange"
    send(
        &mut engine,
        "*4\r\n$6\r\nlrange\r\n$4\r\nlist\r\n$1\r\n0\r\n$2\r\n-1\r\n",
        resp_all,
    );

    // "LRange"
    send(
        &mut engine,
        "*4\r\n$6\r\nLRange\r\n$4\r\nlist\r\n$1\r\n0\r\n$2\r\n-1\r\n",
        resp_all,
    );
}

#[test]
fn normalize_start_index_cases() {
    let values: Vec<String> = ["a", "b", "c", "d", "e"].iter().map(|s| s.to_string()).collect();
    // len = 5
    assert_eq!(ListRangeStorage::normalize_list_range_index(-1, values.len(), true), 4);
    assert_eq!(ListRangeStorage::normalize_list_range_index(-10, values.len(), true), 0);
    assert_eq!(ListRangeStorage::normalize_list_range_index(0, values.len(), true), 0);
    assert_eq!(ListRangeStorage::normalize_list_range_index(3, values.len(), true), 3);
    assert_eq!(ListRangeStorage::normalize_list_range_index(5, values.len(), true), 5);
    assert_eq!(ListRangeStorage::normalize_list_range_index(15, values.len(), true), 5);
}

#[test]
fn normalize_end_index_cases() {
    let values: Vec<String> = ["a", "b", "c", "d", "e"].iter().map(|s| s.to_string()).collect();
    // len = 5, last valid index = 4
    assert_eq!(ListRangeStorage::normalize_list_range_index(-1, values.len(), false), 4);
    assert_eq!(ListRangeStorage::normalize_list_range_index(-10, values.len(), false), 0);
    assert_eq!(ListRangeStorage::normalize_list_range_index(0, values.len(), false), 0);
    assert_eq!(ListRangeStorage::normalize_list_range_index(4, values.len(), false), 4);
    assert_eq!(ListRangeStorage::normalize_list_range_index(5, values.len(), false), 4);
    assert_eq!(ListRangeStorage::normalize_list_range_index(15, values.len(), false), 4);
}

#[test]
fn normalize_empty_values_start_index() {
    let values: Vec<String> = Vec::new();
    // For empty values, start index always normalizes to 0
    assert_eq!(ListRangeStorage::normalize_list_range_index(-1, values.len(), true), 0);
    assert_eq!(ListRangeStorage::normalize_list_range_index(0, values.len(), true), 0);
    assert_eq!(ListRangeStorage::normalize_list_range_index(10, values.len(), true), 0);
}
