use tcp_ws_bridge::frame::TcpError;
use tcp_ws_bridge::json::{Json, JsonError};
use tcp_ws_bridge::terminal::{
    line_step, read_step, receiver_step, LineStep, ReceiverStep, RECEIVE_TIMEOUT_SECS,
};

#[test]
fn exit_leaves() {
    for line in ["exit", "  exit", "exit\t", "\u{3000}exit \r"] {
        assert!(matches!(line_step(line), LineStep::Exit));
    }
    for line in ["Exit", "exit now", "", "ex it"] {
        assert!(matches!(line_step(line), LineStep::Invalid(_)));
    }
    assert!(matches!(line_step("\"exit\""), LineStep::Send(_)));
}

#[test]
fn exit_leaves_whatever_white_space_is_round_it() {
    let codes = [
        0x9, 0xa, 0xb, 0xc, 0xd, 0x20, 0x85, 0xa0, 0x1680, 0x2000, 0x2001, 0x2002, 0x2003, 0x2004,
        0x2005, 0x2006, 0x2007, 0x2008, 0x2009, 0x200a, 0x2028, 0x2029, 0x202f, 0x205f, 0x3000,
    ];
    for c in 0..=0x10ffff {
        if let Some(c) = char::from_u32(c) {
            let leaves = matches!(line_step(&format!("{}exit{}", c, c)), LineStep::Exit);
            assert_eq!(leaves, codes.contains(&u32::from(c)));
        }
    }
}

#[test]
fn a_line_of_json_is_sent() {
    match line_step(r#" {"message": "你好", "type": "greeting"} "#) {
        LineStep::Send(json) => {
            assert_eq!(json.to_text().unwrap(), r#"{"message":"你好","type":"greeting"}"#)
        }
        _ => panic!(),
    }
}

#[test]
fn any_other_line_is_invalid() {
    match line_step("hello") {
        LineStep::Invalid(error) => {
            assert_eq!(error.message, "expected value at line 1 column 1")
        }
        _ => panic!(),
    }
    assert!(matches!(read_step(Ok(Json::Null)), LineStep::Send(Json::Null)));
    match read_step(Err(JsonError { message: "no".to_string() })) {
        LineStep::Invalid(error) => assert_eq!(error.message, "no"),
        _ => panic!(),
    }
}

#[test]
fn silence_is_waited_out() {
    assert!(matches!(receiver_step(Err(TcpError::TimedOut)), ReceiverStep::Wait));
    let told = TcpError::Io("内核: 读取超时!".to_string());
    assert!(matches!(receiver_step(Err(told)), ReceiverStep::Wait));
    let told = TcpError::Json(JsonError { message: "读取超时".to_string() });
    assert!(matches!(receiver_step(Err(told)), ReceiverStep::Wait));
    assert_eq!(RECEIVE_TIMEOUT_SECS, 2);
}

#[test]
fn any_other_error_stops() {
    for error in [
        TcpError::TooLarge,
        TcpError::Closed,
        TcpError::Io("early eof".to_string()),
        TcpError::Json(JsonError { message: "bad".to_string() }),
    ] {
        let message = error.message();
        match receiver_step(Err(error)) {
            ReceiverStep::Stop(text) => assert_eq!(text, message),
            _ => panic!(),
        }
    }
}

#[test]
fn a_value_is_shown() {
    match receiver_step(Ok(Json::Bool(true))) {
        ReceiverStep::Show(json) => assert_eq!(json.to_text().unwrap(), "true"),
        _ => panic!(),
    }
}
