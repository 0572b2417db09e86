use valkyrie::network::connection_handler::process_input;
use valkyrie::storage::engine::StorageEngine;

//
// https://redis.io/docs/latest/commands/ping/
//
fn send(engine: &mut StorageEngine, request: &str, expected: &str) {
    let (out, consumed, pending) = process_input(engine, request.as_bytes());
    assert!(pending.is_none());
    assert_eq!(consumed, request.len());
    assert_eq!(out.as_slice(), expected.as_bytes());
}

#[test]
fn ping_no_arguments() {
    let mut engine = StorageEngine::new(3);

    send(&mut engine, "*1\r\n$4\r\nPING\r\n", "+PONG\r\n");
}

#[test]
fn ping_with_arguments() {
    let mut engine = StorageEngine::new(3);

    send(&mut engine, "*2\r\n$4\r\nPING\r\n$5\r\nWorld\r\n", "$5\r\nWorld\r\n");
}
