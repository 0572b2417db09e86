use valkyrie::protocol::parser::try_parse_frame;
use valkyrie::protocol::redis_serialization_protocol::{RedisType, ToRespBytes};

//
// Assertion helpers
//
fn parse_raw_value(raw_content: &str) -> Option<RedisType> {
    try_parse_frame(raw_content.as_bytes()).map(|(parsed, _consumed)| parsed)
}

fn assert_for_content(raw_content: &str, expected: RedisType) {
    let parse_result = parse_raw_value(raw_content);
    assert!(parse_result.is_some());
    let actual = parse_result.unwrap();
    assert_eq!(expected, actual);
}

fn assert_none_for_content(raw_content: &str) {
    let parse_result = parse_raw_value(raw_content);
    assert!(parse_result.is_none());
}

fn bulk(s: &str) -> RedisType {
    RedisType::BulkString(s.as_bytes().to_vec())
}

fn simple(s: &str) -> RedisType {
    RedisType::SimpleString(s.as_bytes().to_vec())
}

fn invalid(s: &str) -> RedisType {
    RedisType::InvalidType(s.as_bytes().to_vec())
}

//
// Test Simple String parsing
//
#[test]
fn parse_simple_string() {
    assert_for_content("+OK\r\n", simple("OK"));
    assert_for_content("+Ping\r\n", simple("Ping"));
}

#[test]
fn parse_simple_string_incorrect() {
    assert_none_for_content("+OK");

    assert_none_for_content("+OK\r");

    assert_none_for_content("+OK\n");

    assert_none_for_content("+OK\n\r");
}

//
// Test Bulk String parsing
//
#[test]
fn parse_bulk_string() {
    assert_for_content("$4\r\nbulk\r\n", bulk("bulk"));
    assert_for_content("$0\r\n\r\n", bulk(""));
}

#[test]
fn parse_bulk_string_null() {
    assert_for_content("$-1\r\n", RedisType::NullBulkString);
}

#[test]
fn parse_bulk_string_incorrect() {
    assert_none_for_content("$4\r\nbulk");

    assert_none_for_content("$4\r\nbulk\r");

    assert_none_for_content("$4\r\nbulk\n");

    assert_none_for_content("$4\r\nbulk\n\r");

    assert_for_content("$-2\r\nbulk\r\n", invalid("Invalid bulk string length -2"));

    assert_for_content("$abc\r\nbulk\r\n", invalid("Bulk string length not a number abc"));
}

//
// Test Array parsing
//
#[test]
fn parse_array() {
    // Empty array
    assert_for_content("*0\r\n", RedisType::Array(vec![]));

    // Array of simple strings
    assert_for_content(
        "*2\r\n+OK\r\n+Ping\r\n",
        RedisType::Array(vec![simple("OK"), simple("Ping")]),
    );

    // Mixed types: simple, bulk, empty bulk
    assert_for_content(
        "*3\r\n+PONG\r\n$4\r\nbulk\r\n$0\r\n\r\n",
        RedisType::Array(vec![simple("PONG"), bulk("bulk"), bulk("")]),
    );

    // Contains null bulk string
    assert_for_content(
        "*2\r\n$-1\r\n+OK\r\n",
        RedisType::Array(vec![RedisType::NullBulkString, simple("OK")]),
    );

    // Contains null array as an element
    assert_for_content("*1\r\n*-1\r\n", RedisType::Array(vec![RedisType::NullArray]));
}

#[test]
fn parse_array_with_different_types() {
    assert_for_content(
        "*5\r\n$5\r\nhello\r\n$-1\r\n$5\r\nworld\r\n$8\r\nvalkyrie\r\n$11\r\nis the best\r\n",
        RedisType::Array(vec![
            bulk("hello"),
            RedisType::NullBulkString,
            bulk("world"),
            bulk("valkyrie"),
            bulk("is the best"),
        ]),
    );
}

#[test]
fn parse_array_null() {
    assert_for_content("*-1\r\n", RedisType::NullArray);
}

#[test]
fn parse_array_nested() {
    // [[ "A", "B" ], "abc"]
    assert_for_content(
        "*2\r\n*2\r\n+A\r\n+B\r\n$3\r\nabc\r\n",
        RedisType::Array(vec![
            RedisType::Array(vec![simple("A"), simple("B")]),
            bulk("abc"),
        ]),
    );

    // [ ["X"], null array, "" ]
    assert_for_content(
        "*3\r\n*1\r\n+X\r\n*-1\r\n$0\r\n\r\n",
        RedisType::Array(vec![
            RedisType::Array(vec![simple("X")]),
            RedisType::NullArray,
            bulk(""),
        ]),
    );
}

#[test]
fn parse_array_incorrect() {
    // missing one element
    assert_none_for_content("*1\r\n");

    // Missing second element
    assert_none_for_content("*2\r\n+OK\r\n");

    // Incomplete element inside array
    assert_none_for_content("*1\r\n$4\r\nbulk"); // bulk string not fully terminated
    assert_none_for_content("*1\r\n+OK"); // simple string not fully terminated

    // Partially terminated element delimiters
    assert_none_for_content("*1\r\n+OK\r");
    assert_none_for_content("*1\r\n+OK\n");
    assert_none_for_content("*1\r\n+OK\n\r");

    // Invalid negative length (except -1)
    assert_for_content("*-2\r\n", invalid("Invalid array length -2"));

    // Non-numeric length
    assert_for_content("*abc\r\n", invalid("Array length not a number abc"));
}

//
// Integer parsing
//
#[test]
fn parse_integer() {
    assert_for_content(":0\r\n", RedisType::Integer(0));
    assert_for_content(":+0\r\n", RedisType::Integer(0));
    assert_for_content(":42\r\n", RedisType::Integer(42));
    assert_for_content(":+42\r\n", RedisType::Integer(42));
    assert_for_content(":-42\r\n", RedisType::Integer(-42));
    assert_for_content(":2147483647\r\n", RedisType::Integer(2147483647));
    assert_for_content(":-2147483647\r\n", RedisType::Integer(-2147483647));
    assert_for_content(":-2147483648\r\n", RedisType::Integer(-2147483648));
}

#[test]
fn parse_integer_incorrect() {
    // Empty integer after marker
    assert_for_content(":\r\n", invalid("Invalid integer "));

    // Sign only
    assert_for_content(":+\r\n", invalid("Invalid integer +"));
    assert_for_content(":-\r\n", invalid("Invalid integer -"));

    // Non-digit characters in value
    assert_for_content(":12a\r\n", invalid("Invalid integer 12a"));
    assert_for_content(":a12\r\n", invalid("Invalid integer a12"));
    assert_for_content(":+-12\r\n", invalid("Invalid integer +-12"));
    assert_for_content(":-+12\r\n", invalid("Invalid integer -+12"));
}

#[test]
fn parse_integer_incomplete_or_overflow() {
    // Incomplete (missing CRLF) -> parser returns InvalidType("Can't read integer")
    assert_for_content(":0", invalid("Can't read integer"));
    assert_for_content(":123\r", invalid("Can't read integer"));
    assert_for_content(":123\n", invalid("Can't read integer"));
    assert_for_content(":123\n\r", invalid("Can't read integer"));

    // Overflow/underflow: values outside the signed 64-bit range
    assert_for_content(
        ":9223372036854775808\r\n",
        invalid("Invalid integer 9223372036854775808"),
    );

    assert_for_content(
        ":-9223372036854775809\r\n",
        invalid("Invalid integer -9223372036854775809"),
    );
}

//
// Encoding tests
//
#[test]
fn encode_simple_string() {
    let v = simple("OK").to_resp_bytes();
    assert_eq!(b"+OK\r\n", v.as_slice());
}

#[test]
fn encode_bulk_string() {
    let v = bulk("bulk").to_resp_bytes();
    assert_eq!(b"$4\r\nbulk\r\n", v.as_slice());
}

#[test]
fn encode_null_bulk_string() {
    let v = RedisType::NullBulkString.to_resp_bytes();
    assert_eq!(b"$-1\r\n", v.as_slice());
}

#[test]
fn encode_integer() {
    let v = RedisType::Integer(-42).to_resp_bytes();
    assert_eq!(b":-42\r\n", v.as_slice());
}

#[test]
fn encode_array_simple() {
    let v = RedisType::Array(vec![simple("OK"), simple("Ping")]).to_resp_bytes();
    assert_eq!(b"*2\r\n+OK\r\n+Ping\r\n", v.as_slice());
}

#[test]
fn encode_array_mixed() {
    let v = RedisType::Array(vec![simple("PONG"), bulk("bulk"), bulk("")]).to_resp_bytes();
    assert_eq!(b"*3\r\n+PONG\r\n$4\r\nbulk\r\n$0\r\n\r\n", v.as_slice());
}

#[test]
fn encode_array_nested_and_nulls() {
    let v = RedisType::Array(vec![
        RedisType::Array(vec![simple("A"), simple("B")]),
        bulk("abc"),
        RedisType::NullArray,
        RedisType::NullBulkString,
    ])
    .to_resp_bytes();
    // Expected:
    // *4\r\n
    // *2\r\n+A\r\n+B\r\n
    // $3\r\nabc\r\n
    // *-1\r\n
    // $-1\r\n
    let expected = b"*4\r\n*2\r\n+A\r\n+B\r\n$3\r\nabc\r\n*-1\r\n$-1\r\n";
    assert_eq!(expected, v.as_slice());
}

#[test]
fn encode_invalid_type_as_error() {
    let v = invalid("Invalid integer 12a").to_resp_bytes();
    assert_eq!(b"-Invalid integer 12a\r\n", v.as_slice());
}

#[test]
fn froms_str_conversation() {
    // Simple String: +<string>\r\n
    assert_eq!(Some(simple("Hello")), parse_raw_value("+Hello\r\n"));

    // Integers: :[<+|->]<value>\r\n
    assert_eq!(Some(RedisType::Integer(123)), parse_raw_value(":+123\r\n"));
    assert_eq!(Some(RedisType::Integer(-777)), parse_raw_value(":-777\r\n"));

    // Bulk String: $<length>\r\n<data>\r\n
    assert_eq!(Some(bulk("bulk")), parse_raw_value("$4\r\nbulk\r\n"));
    assert_eq!(Some(bulk("")), parse_raw_value("$0\r\n\r\n"));

    // Null Bulk String: $-1\r\n
    assert_eq!(Some(RedisType::NullBulkString), parse_raw_value("$-1\r\n"));

    // Arrays: *<number-of-elements>\r\n<element-1>...<element-n>
    assert_eq!(
        Some(RedisType::Array(vec![simple("OK"), simple("Ping")])),
        parse_raw_value("*2\r\n+OK\r\n+Ping\r\n")
    );

    // Arrays with mixed elements
    assert_eq!(
        Some(RedisType::Array(vec![bulk("hello"), RedisType::Integer(42)])),
        parse_raw_value("*2\r\n$5\r\nhello\r\n:42\r\n")
    );

    // Null Array: *-1\r\n
    assert_eq!(Some(RedisType::NullArray), parse_raw_value("*-1\r\n"));

    // Nested array
    assert_eq!(
        Some(RedisType::Array(vec![
            RedisType::Array(vec![simple("A")]),
            bulk("abc"),
        ])),
        parse_raw_value("*2\r\n*1\r\n+A\r\n$3\r\nabc\r\n")
    );
}

// Exact prefix consumption: a parsed frame reports its own length, and
// pipelined bytes after it are untouched.
#[test]
fn parse_reports_exact_consumed_prefix() {
    let input = b"+PONG\r\n:42\r\n";
    let (first, consumed) = try_parse_frame(input).unwrap();
    assert_eq!(first, simple("PONG"));
    assert_eq!(consumed, 7);
    let (second, consumed2) = try_parse_frame(&input[consumed..]).unwrap();
    assert_eq!(second, RedisType::Integer(42));
    assert_eq!(consumed2, 5);
}

// Round trip: encoding then parsing returns the same frame.
#[test]
fn parse_of_encode_round_trip() {
    let frames = vec![
        simple("PONG"),
        RedisType::Integer(-9001),
        bulk("payload with \r inside"),
        RedisType::NullBulkString,
        RedisType::NullArray,
        RedisType::Array(vec![bulk("a"), RedisType::Integer(7), RedisType::Array(vec![])]),
    ];
    for frame in frames {
        let encoded = frame.to_resp_bytes();
        let (parsed, consumed) = try_parse_frame(encoded.as_slice()).unwrap();
        assert_eq!(parsed, frame);
        assert_eq!(consumed, encoded.len());
    }
}
