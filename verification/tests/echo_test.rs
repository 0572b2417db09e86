use valkyrie::network::connection_handler::process_input;
use valkyrie::storage::engine::StorageEngine;

///
/// https://redis.io/docs/latest/commands/echo/
///
fn send(engine: &mut StorageEngine, request: &str, expected: &str) {
    let (out, consumed, pending) = process_input(engine, request.as_bytes());
    assert!(pending.is_none());
    assert_eq!(consumed, request.len());
    assert_eq!(out.as_slice(), expected.as_bytes());
}

/// Happy path: BulkString argument echoes back as BulkString
#[test]
fn echo_with_argument() {
    let mut engine = StorageEngine::new(3);

    let msg = "hello";
    let echo_req = format!("*2\r\n$4\r\nECHO\r\n${}\r\n{}\r\n", msg.len(), msg);
    let echo_response = format!("${}\r\n{}\r\n", msg.len(), msg);

    send(&mut engine, &echo_req, &echo_response);
}

/// Error: no argument
#[test]
fn echo_no_argument() {
    let mut engine = StorageEngine::new(3);

    send(&mut engine, "*1\r\n$4\r\nECHO\r\n", "-No argument for ECHO command\r\n");
}

/// Happy path: empty BulkString echoes empty BulkString
#[test]
fn echo_empty_string_argument() {
    let mut engine = StorageEngine::new(3);

    // $0\r\n\r\n is an empty bulk string
    send(&mut engine, "*2\r\n$4\r\nECHO\r\n$0\r\n\r\n", "$0\r\n\r\n");
}

/// Error: too many arguments -> matches parser's "No argument ..." for len != 2
#[test]
fn echo_too_many_arguments() {
    let mut engine = StorageEngine::new(3);

    // ECHO hello !
    send(
        &mut engine,
        "*3\r\n$4\r\nECHO\r\n$5\r\nhello\r\n$1\r\n!\r\n",
        "-No argument for ECHO command\r\n",
    );
}

/// Error: wrong type for argument (Integer instead of BulkString)
#[test]
fn echo_wrong_type_integer_argument() {
    let mut engine = StorageEngine::new(3);

    send(
        &mut engine,
        "*2\r\n$4\r\nECHO\r\n:1\r\n",
        "-ECHO argument is not a BulkString\r\n",
    );
}

/// Error: null bulk string as argument is not accepted by current parser
#[test]
fn echo_null_bulk_string_argument() {
    let mut engine = StorageEngine::new(3);

    send(
        &mut engine,
        "*2\r\n$4\r\nECHO\r\n$-1\r\n",
        "-ECHO argument is not a BulkString\r\n",
    );
}

/// Command name is case-insensitive
#[test]
fn echo_case_insensitive_command_name() {
    let mut engine = StorageEngine::new(3);

    // "echo"
    send(&mut engine, "*2\r\n$4\r\necho\r\n$5\r\nworld\r\n", "$5\r\nworld\r\n");

    // "Echo"
    send(&mut engine, "*2\r\n$4\r\nEcho\r\n$1\r\n!\r\n", "$1\r\n!\r\n");
}
