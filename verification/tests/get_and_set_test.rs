use valkyrie::network::connection_handler::process_input;
use valkyrie::storage::engine::StorageEngine;

fn send(engine: &mut StorageEngine, request: &str, expected: &str) {
    let (out, consumed, pending) = process_input(engine, request.as_bytes());
    assert!(pending.is_none());
    assert_eq!(consumed, request.len());
    assert_eq!(out.as_slice(), expected.as_bytes());
}

#[test]
fn set_and_get_roundtrip_no_expiration() {
    let mut engine = StorageEngine::new(3);

    let key = "mykey";
    let value = "myvalue";

    // SET mykey myvalue
    let set_req = format!(
        "*3\r\n$3\r\nSET\r\n${}\r\n{}\r\n${}\r\n{}\r\n",
        key.len(),
        key,
        value.len(),
        value
    );
    send(&mut engine, &set_req, "+OK\r\n");

    // GET mykey
    let get_req = format!("*2\r\n$3\r\nGET\r\n${}\r\n{}\r\n", key.len(), key);
    let get_resp = format!("${}\r\n{}\r\n", value.len(), value);
    send(&mut engine, &get_req, &get_resp);
}

#[test]
fn set_with_ex_expiration_expires() {
    let mut engine = StorageEngine::new(3);

    let key = "ex_key";
    let value = "ex_value";
    let seconds = 1u64; // EX 1 second
    let seconds_str = seconds.to_string();

    // SET ex_key ex_value EX 1
    let set_req = format!(
        "*5\r\n$3\r\nSET\r\n${}\r\n{}\r\n${}\r\n{}\r\n$2\r\nEX\r\n${}\r\n{}\r\n",
        key.len(),
        key,
        value.len(),
        value,
        seconds_str.len(),
        seconds_str
    );
    send(&mut engine, &set_req, "+OK\r\n");

    // Immediate GET should return value
    let get_req = format!("*2\r\n$3\r\nGET\r\n${}\r\n{}\r\n", key.len(), key);
    let get_resp = format!("${}\r\n{}\r\n", value.len(), value);
    send(&mut engine, &get_req, &get_resp);

    // The expiration fires and removes the key; GET again -> Null Bulk String
    engine.expire_key(key.as_bytes());
    let get_req2 = format!("*2\r\n$3\r\nGET\r\n${}\r\n{}\r\n", key.len(), key);
    send(&mut engine, &get_req2, "$-1\r\n");
}

#[test]
fn set_with_px_expiration_expires() {
    let mut engine = StorageEngine::new(3);

    let key = "px_key";
    let value = "px_value";
    let millis = 300u64; // PX 300 ms
    let millis_str = millis.to_string();

    // SET px_key px_value PX 300
    let set_req = format!(
        "*5\r\n$3\r\nSET\r\n${}\r\n{}\r\n${}\r\n{}\r\n$2\r\nPX\r\n${}\r\n{}\r\n",
        key.len(),
        key,
        value.len(),
        value,
        millis_str.len(),
        millis_str
    );
    send(&mut engine, &set_req, "+OK\r\n");

    // Immediate GET should return value
    let get_req = format!("*2\r\n$3\r\nGET\r\n${}\r\n{}\r\n", key.len(), key);
    let get_resp = format!("${}\r\n{}\r\n", value.len(), value);
    send(&mut engine, &get_req, &get_resp);

    // The expiration fires and removes the key; GET again -> Null Bulk String
    engine.expire_key(key.as_bytes());
    let get_req2 = format!("*2\r\n$3\r\nGET\r\n${}\r\n{}\r\n", key.len(), key);
    send(&mut engine, &get_req2, "$-1\r\n");
}

// A SET error reply: a non-numeric EX value names the offending text.
#[test]
fn set_with_bad_ex_value_fails() {
    let mut engine = StorageEngine::new(3);

    send(
        &mut engine,
        "*5\r\n$3\r\nSET\r\n$1\r\nk\r\n$1\r\nv\r\n$2\r\nEX\r\n$3\r\nabc\r\n",
        "-Can't convert EX value 'abc' to number\r\n",
    );
    send(
        &mut engine,
        "*5\r\n$3\r\nSET\r\n$1\r\nk\r\n$1\r\nv\r\n$2\r\nPX\r\n$2\r\nxy\r\n",
        "-Can't convert PX value 'xy' to number\r\n",
    );
}

// Overwriting a key replaces the value and a later GET sees the new one.
#[test]
fn set_overwrites_previous_value() {
    let mut engine = StorageEngine::new(3);

    send(&mut engine, "*3\r\n$3\r\nSET\r\n$1\r\nk\r\n$3\r\nold\r\n", "+OK\r\n");
    send(&mut engine, "*3\r\n$3\r\nSET\r\n$1\r\nk\r\n$3\r\nnew\r\n", "+OK\r\n");
    send(&mut engine, "*2\r\n$3\r\nGET\r\n$1\r\nk\r\n", "$3\r\nnew\r\n");
}

// Missing arguments are rejected with the parser's message.
#[test]
fn set_not_enough_arguments() {
    let mut engine = StorageEngine::new(3);

    send(
        &mut engine,
        "*2\r\n$3\r\nSET\r\n$1\r\nk\r\n",
        "-Not enough arguments for SET command\r\n",
    );
    send(
        &mut engine,
        "*1\r\n$3\r\nGET\r\n",
        "-No enough arguments for GET command\r\n",
    );
}
