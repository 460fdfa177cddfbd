use tcp_ws_bridge::frame::{
    body_step, read_from_tcp, read_within, receive_message, send_message, send_response, ReadEvent, ReadStep,
    ReceiveEvent, TcpError,
};
use tcp_ws_bridge::json::{Json, JsonError};

fn json(text: &str) -> Json {
    Json::from_text(text).unwrap()
}

fn server_prefix(n: u32) -> ReadStep {
    read_from_tcp(ReadEvent::Prefix { count: 4, bytes: n.to_be_bytes() })
}

fn client_prefix(n: u32) -> ReadStep {
    receive_message(ReceiveEvent::Prefix(n.to_be_bytes()))
}

fn head(frame: &[u8]) -> [u8; 4] {
    [frame[0], frame[1], frame[2], frame[3]]
}

#[test]
fn a_response_counts_its_length_in() {
    let frame = send_response(&json(r#"{"a":1}"#)).unwrap();
    assert_eq!(frame, b"\x00\x00\x00\x0b{\"a\":1}".to_vec());
}

#[test]
fn a_text_response_has_no_quotes() {
    let frame = send_response(&Json::Text("hi \"you\"".to_string())).unwrap();
    assert_eq!(frame, b"\x00\x00\x00\x0chi \"you\"".to_vec());
    let frame = send_response(&Json::Text("你".to_string())).unwrap();
    assert_eq!(frame, vec![0, 0, 0, 7, 0xe4, 0xbd, 0xa0]);
    assert_eq!(send_response(&Json::Text(String::new())).unwrap(), vec![0, 0, 0, 4]);
}

#[test]
fn a_long_response_has_its_length_most_significant_byte_first() {
    let frame = send_response(&Json::Text("x".repeat(0x12345))).unwrap();
    assert_eq!(head(&frame), [0x00, 0x01, 0x23, 0x49]);
    assert_eq!(frame.len(), 0x12349);
}

#[test]
fn a_message_of_the_terminal_client_counts_the_body_alone() {
    let frame = send_message(&json(r#"{"a":1}"#)).unwrap();
    assert_eq!(frame, b"\x00\x00\x00\x07{\"a\":1}".to_vec());
    let frame = send_message(&Json::Text("hi".to_string())).unwrap();
    assert_eq!(frame, b"\x00\x00\x00\x04\"hi\"".to_vec());
}

#[test]
fn the_server_reads_bodies_up_to_its_limit() {
    assert!(matches!(server_prefix(4), ReadStep::NeedBody(0)));
    assert!(matches!(server_prefix(9), ReadStep::NeedBody(5)));
    assert!(matches!(server_prefix(4100), ReadStep::NeedBody(4096)));
    for n in [0, 1, 3, 4101, 65536, u32::MAX] {
        assert!(matches!(server_prefix(n), ReadStep::Failed(TcpError::TooLarge)));
    }
}

#[test]
fn a_body_has_to_fit_the_buffer() {
    let step = |limit: usize, n: u32| {
        read_within(limit, ReadEvent::Prefix { count: 4, bytes: n.to_be_bytes() })
    };
    for (limit, n) in [(0, 4), (1, 5), (10, 14), (8192, 8196), (70000, 70004)] {
        match step(limit, n) {
            ReadStep::NeedBody(length) => assert_eq!(length, limit),
            _ => panic!(),
        }
        assert!(matches!(step(limit, n + 1), ReadStep::Failed(TcpError::TooLarge)));
    }
    assert!(matches!(step(70000, 3), ReadStep::Failed(TcpError::TooLarge)));
    assert!(matches!(step(usize::MAX, u32::MAX), ReadStep::NeedBody(4294967291)));
    let closed = read_within(9, ReadEvent::Prefix { count: 0, bytes: [0, 0, 0, 9] });
    assert!(matches!(closed, ReadStep::Failed(TcpError::Closed)));
    match read_within(0, ReadEvent::Body(b"[1]".to_vec())) {
        ReadStep::Done(json) => assert_eq!(json.to_text().unwrap(), "[1]"),
        _ => panic!(),
    }
}

#[test]
fn the_terminal_client_reads_bodies_up_to_its_limit() {
    assert!(matches!(client_prefix(0), ReadStep::NeedBody(0)));
    assert!(matches!(client_prefix(1048576), ReadStep::NeedBody(1048576)));
    for n in [1048577, u32::MAX] {
        assert!(matches!(client_prefix(n), ReadStep::Failed(TcpError::TooLarge)));
    }
}

#[test]
fn a_closed_connection_is_told() {
    let step = read_from_tcp(ReadEvent::Prefix { count: 0, bytes: [0, 0, 0, 9] });
    assert!(matches!(step, ReadStep::Failed(TcpError::Closed)));
}

#[test]
fn failures_are_passed_on() {
    match read_from_tcp(ReadEvent::Failed("early eof".to_string())) {
        ReadStep::Failed(error) => assert_eq!(error, TcpError::Io("early eof".to_string())),
        _ => panic!(),
    }
    match receive_message(ReceiveEvent::Failed("early eof".to_string())) {
        ReadStep::Failed(error) => assert_eq!(error, TcpError::Io("early eof".to_string())),
        _ => panic!(),
    }
    match receive_message(ReceiveEvent::TimedOut) {
        ReadStep::Failed(error) => assert_eq!(error, TcpError::TimedOut),
        _ => panic!(),
    }
}

#[test]
fn a_body_is_read_as_json() {
    match read_from_tcp(ReadEvent::Body(b"[1, 2]".to_vec())) {
        ReadStep::Done(json) => assert_eq!(json.to_text().unwrap(), "[1,2]"),
        _ => panic!(),
    }
    match receive_message(ReceiveEvent::Body(b"[1, 2]".to_vec())) {
        ReadStep::Done(json) => assert_eq!(json.to_text().unwrap(), "[1,2]"),
        _ => panic!(),
    }
    match read_from_tcp(ReadEvent::Body(b"[1, 2".to_vec())) {
        ReadStep::Failed(error) => {
            assert_eq!(error.message(), "EOF while parsing a list at line 1 column 5")
        }
        _ => panic!(),
    }
    match receive_message(ReceiveEvent::Body(Vec::new())) {
        ReadStep::Failed(TcpError::Json(_)) => {}
        _ => panic!(),
    }
}

#[test]
fn a_body_that_was_read_is_judged_by_the_reading() {
    assert!(matches!(body_step(Ok(Json::Null)), ReadStep::Done(Json::Null)));
    let error = JsonError { message: "no".to_string() };
    match body_step(Err(error)) {
        ReadStep::Failed(error) => assert_eq!(error.message(), "no"),
        _ => panic!(),
    }
}

#[test]
fn errors_say_what_is_wrong() {
    assert_eq!(TcpError::Closed.message(), "连接已关闭");
    assert_eq!(TcpError::TimedOut.message(), "读取超时");
    assert_eq!(TcpError::TooLarge.message(), "数据包太大");
    assert_eq!(TcpError::Io("reset".to_string()).message(), "reset");
    let error = JsonError { message: "bad".to_string() };
    assert_eq!(TcpError::Json(error).message(), "bad");
}

#[test]
fn the_server_reads_its_own_frames() {
    let value = json(r#"{"list":[1,2,{"x":null}],"name":"n"}"#);
    let frame = send_response(&value).unwrap();
    let n = match read_from_tcp(ReadEvent::Prefix { count: 4, bytes: head(&frame) }) {
        ReadStep::NeedBody(n) => n,
        _ => panic!(),
    };
    assert_eq!(n, frame.len() - 4);
    match read_from_tcp(ReadEvent::Body(frame[4..4 + n].to_vec())) {
        ReadStep::Done(json) => assert_eq!(json.to_text().unwrap(), value.to_text().unwrap()),
        _ => panic!(),
    }
}

#[test]
fn the_terminal_client_reads_its_own_frames() {
    let value = json(r#"{"message":"你好","type":"greeting"}"#);
    let frame = send_message(&value).unwrap();
    let n = match receive_message(ReceiveEvent::Prefix(head(&frame))) {
        ReadStep::NeedBody(n) => n,
        _ => panic!(),
    };
    assert_eq!(n, frame.len() - 4);
    match receive_message(ReceiveEvent::Body(frame[4..4 + n].to_vec())) {
        ReadStep::Done(json) => assert_eq!(json.to_text().unwrap(), value.to_text().unwrap()),
        _ => panic!(),
    }
}

#[test]
fn frames_that_follow_each_other_are_told_apart() {
    let values = ["{}", "[1,2,3]", "\"x\"", "null"];
    let mut from_server = Vec::new();
    let mut from_client = Vec::new();
    for value in values {
        from_client.append(&mut send_message(&json(value)).unwrap());
        let quoted = Json::Text(value.to_string());
        from_server.append(&mut send_response(&quoted).unwrap());
    }
    let mut read = Vec::new();
    let mut stream = from_server.as_slice();
    while !stream.is_empty() {
        match read_from_tcp(ReadEvent::Prefix { count: 4, bytes: head(stream) }) {
            ReadStep::NeedBody(n) => {
                match read_from_tcp(ReadEvent::Body(stream[4..4 + n].to_vec())) {
                    ReadStep::Done(json) => read.push(json.to_text().unwrap()),
                    _ => panic!(),
                }
                stream = &stream[4 + n..];
            }
            _ => panic!(),
        }
    }
    let mut stream = from_client.as_slice();
    while !stream.is_empty() {
        match receive_message(ReceiveEvent::Prefix(head(stream))) {
            ReadStep::NeedBody(n) => {
                match receive_message(ReceiveEvent::Body(stream[4..4 + n].to_vec())) {
                    ReadStep::Done(json) => read.push(json.to_text().unwrap()),
                    _ => panic!(),
                }
                stream = &stream[4 + n..];
            }
            _ => panic!(),
        }
    }
    assert_eq!(read, [values, values].concat());
}

#[test]
fn the_two_ends_count_differently() {
    let value = json(r#"{"a":1}"#);
    let from_client = send_message(&value).unwrap();
    let step = read_from_tcp(ReadEvent::Prefix { count: 4, bytes: head(&from_client) });
    assert!(matches!(step, ReadStep::NeedBody(3)));
    let from_server = send_response(&value).unwrap();
    let step = receive_message(ReceiveEvent::Prefix(head(&from_server)));
    assert!(matches!(step, ReadStep::NeedBody(11)));
    let short = send_message(&json("1")).unwrap();
    let step = read_from_tcp(ReadEvent::Prefix { count: 4, bytes: head(&short) });
    assert!(matches!(step, ReadStep::Failed(TcpError::TooLarge)));
}
