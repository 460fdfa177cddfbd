//! Frames: what is written round a value, and what comes of reading it.

use vstd::prelude::*;
#[allow(unused_imports)]
use vstd::utf8::encode_utf8;
#[allow(unused_imports)]
use crate::frame::{
    be_bytes, body_step, client_frame, lemma_be_round_trip, lemma_client_reads_its_frame,
    lemma_server_reads_its_frame, read_from_tcp, read_within, receive_message, send_message,
    send_response, server_frame, ReadEvent, ReadStep, ReceiveEvent, TcpError,
};
#[allow(unused_imports)]
use crate::json::{Json, JsonError, JsonModel};
#[allow(unused_imports)]
use crate::serde_bridge::{parsed_bytes, written_text};

verus! {

/// What the server sends for a value is a text without quotes, or else the JSON of the value,
/// behind four bytes that give its length and count themselves.
pub proof fn lemma_a_response_is_framed(response: &Json, sent: Result<Vec<u8>, JsonError>)
    requires
        call_ensures(send_response, (response,), sent),
    ensures
        sent matches Ok(frame) && {
            let body = match response@ {
                JsonModel::Text(text) => encode_utf8(text),
                other => encode_utf8(written_text(other)),
            };
            &&& frame@.len() == body.len() + 4
            &&& frame@.skip(4) == body
            &&& frame@[0] * 16777216 + frame@[1] * 65536 + frame@[2] * 256 + frame@[3] == (
            body.len() + 4) % 0x1_0000_0000
        },
{
    let body = match response@ {
        JsonModel::Text(text) => encode_utf8(text),
        other => encode_utf8(written_text(other)),
    };
    let frame = sent->Ok_0@;
    lemma_be_round_trip((body.len() + 4) as int % 0x1_0000_0000);
    assert(frame.skip(4) =~= body);
    assert(frame.take(4) =~= be_bytes((body.len() + 4) as int % 0x1_0000_0000));
    assert(frame[0] == frame.take(4)[0] && frame[1] == frame.take(4)[1] && frame[2]
        == frame.take(4)[2] && frame[3] == frame.take(4)[3]);
}

/// A message of the terminal client is the JSON of the value, quotes and all, behind four
/// bytes that give the length of the JSON alone.
pub proof fn lemma_a_message_is_framed(data: &Json, sent: Result<Vec<u8>, JsonError>)
    requires
        call_ensures(send_message, (data,), sent),
    ensures
        sent matches Ok(frame) && {
            let body = encode_utf8(written_text(data@));
            &&& frame@.len() == body.len() + 4
            &&& frame@.skip(4) == body
            &&& frame@[0] * 16777216 + frame@[1] * 65536 + frame@[2] * 256 + frame@[3]
                == body.len() as int % 0x1_0000_0000
        },
{
    let body = encode_utf8(written_text(data@));
    let frame = sent->Ok_0@;
    lemma_be_round_trip(body.len() as int % 0x1_0000_0000);
    assert(frame.skip(4) =~= body);
    assert(frame.take(4) =~= be_bytes(body.len() as int % 0x1_0000_0000));
    assert(frame[0] == frame.take(4)[0] && frame[1] == frame.take(4)[1] && frame[2]
        == frame.take(4)[2] && frame[3] == frame.take(4)[3]);
}

/// The length at the head of a frame, which counts its own four bytes, is followed by a body
/// of what it says beyond them. It is refused where it does not count them or where the
/// body does not fit. Where nothing was read, the connection is closed.
pub proof fn lemma_a_length_is_read(limit: usize, count: usize, bytes: [u8; 4], step: ReadStep)
    requires
        call_ensures(read_within, (limit, ReadEvent::Prefix { count, bytes }), step),
    ensures
        ({
            let length = bytes@[0] * 16777216 + bytes@[1] * 65536 + bytes@[2] * 256 + bytes@[3];
            if count == 0 {
                step == ReadStep::Failed(TcpError::Closed)
            } else if 4 <= length <= limit + 4 {
                step == ReadStep::NeedBody((length - 4) as usize) && length - 4 <= usize::MAX
            } else {
                step == ReadStep::Failed(TcpError::TooLarge)
            }
        }),
{
}

/// A body gives the whole value that its bytes are parsed as, or what the parser says of
/// them, whatever the limit.
pub proof fn lemma_a_body_is_read(limit: usize, body: Vec<u8>, step: ReadStep)
    requires
        call_ensures(read_within, (limit, ReadEvent::Body(body)), step),
    ensures
        match parsed_bytes(body@) {
            Ok(value) => step matches ReadStep::Done(json) && json@ == value,
            Err(text) => step matches ReadStep::Failed(TcpError::Json(error)) && error.message@
                == text,
        },
{
}

/// The server reads with room for 4096 bytes.
pub proof fn lemma_the_server_reads(
    count: usize,
    bytes: [u8; 4],
    body: Vec<u8>,
    text: String,
    length_step: ReadStep,
    body_step: ReadStep,
    failed_step: ReadStep,
)
    requires
        call_ensures(read_from_tcp, (ReadEvent::Prefix { count, bytes },), length_step),
        call_ensures(read_from_tcp, (ReadEvent::Body(body),), body_step),
        call_ensures(read_from_tcp, (ReadEvent::Failed(text),), failed_step),
    ensures
        ({
            let length = bytes@[0] * 16777216 + bytes@[1] * 65536 + bytes@[2] * 256 + bytes@[3];
            if count == 0 {
                length_step == ReadStep::Failed(TcpError::Closed)
            } else if 4 <= length <= 4100 {
                length_step == ReadStep::NeedBody((length - 4) as usize)
            } else {
                length_step == ReadStep::Failed(TcpError::TooLarge)
            }
        }),
        match parsed_bytes(body@) {
            Ok(value) => body_step matches ReadStep::Done(json) && json@ == value,
            Err(reason) => body_step matches ReadStep::Failed(TcpError::Json(error))
                && error.message@ == reason,
        },
        failed_step == ReadStep::Failed(TcpError::Io(text)),
{
}

/// The terminal client reads a length that counts the body alone, and has room for 1048576
/// bytes.
pub proof fn lemma_the_terminal_client_reads(
    bytes: [u8; 4],
    body: Vec<u8>,
    text: String,
    length_step: ReadStep,
    body_step: ReadStep,
    failed_step: ReadStep,
    silent_step: ReadStep,
)
    requires
        call_ensures(receive_message, (ReceiveEvent::Prefix(bytes),), length_step),
        call_ensures(receive_message, (ReceiveEvent::Body(body),), body_step),
        call_ensures(receive_message, (ReceiveEvent::Failed(text),), failed_step),
        call_ensures(receive_message, (ReceiveEvent::TimedOut,), silent_step),
    ensures
        ({
            let length = bytes@[0] * 16777216 + bytes@[1] * 65536 + bytes@[2] * 256 + bytes@[3];
            if length <= 1048576 {
                length_step == ReadStep::NeedBody(length as usize)
            } else {
                length_step == ReadStep::Failed(TcpError::TooLarge)
            }
        }),
        match parsed_bytes(body@) {
            Ok(value) => body_step matches ReadStep::Done(json) && json@ == value,
            Err(reason) => body_step matches ReadStep::Failed(TcpError::Json(error))
                && error.message@ == reason,
        },
        failed_step == ReadStep::Failed(TcpError::Io(text)),
        silent_step == ReadStep::Failed(TcpError::TimedOut),
{
}

/// That reading failed is passed on with what the system says, and what was read as JSON
/// with what came of it.
pub proof fn lemma_what_came_of_reading_is_passed_on(
    limit: usize,
    text: String,
    failed: ReadStep,
    json: Json,
    read: ReadStep,
    error: JsonError,
    unread: ReadStep,
)
    requires
        call_ensures(read_within, (limit, ReadEvent::Failed(text)), failed),
        call_ensures(body_step, (Ok(json),), read),
        call_ensures(body_step, (Err(error),), unread),
    ensures
        failed == ReadStep::Failed(TcpError::Io(text)),
        read == ReadStep::Done(json),
        unread == ReadStep::Failed(TcpError::Json(error)),
{
}

/// A server that reads a frame which a server wrote for a value ends with exactly that
/// value: it asks for the whole body and for no more, and the body is the value. This
/// holds of every value that is no text, is said to read back and fits the limit.
pub proof fn lemma_a_response_is_read_as_its_value(
    response: &Json,
    frame: Vec<u8>,
    count: usize,
    bytes: [u8; 4],
    body: Vec<u8>,
    length_step: ReadStep,
    body_step: ReadStep,
)
    requires
        !(response@ is Text),
        call_ensures(Json::reads_back, (response,), true),
        call_ensures(send_response, (response,), Ok(frame)),
        frame@.len() <= 4100,
        count != 0,
        bytes@ == frame@.take(4),
        body@ == frame@.skip(4),
        call_ensures(read_from_tcp, (ReadEvent::Prefix { count, bytes },), length_step),
        call_ensures(read_from_tcp, (ReadEvent::Body(body),), body_step),
    ensures
        length_step == ReadStep::NeedBody((frame@.len() - 4) as usize),
        body_step matches ReadStep::Done(json) && json@ == response@,
{
    lemma_a_response_is_framed(response, Ok(frame));
    assert(bytes@[0] == frame@[0] && bytes@[1] == frame@[1] && bytes@[2] == frame@[2] && bytes@[3]
        == frame@[3]);
    lemma_server_reads_its_frame(body@, Seq::empty());
    assert(server_frame(body@) + Seq::<u8>::empty() =~= server_frame(
        body@,
    ));
}

/// A terminal client that reads a frame which a terminal client wrote for a value ends with
/// exactly that value. This holds of every value that is said to read back and fits the
/// limit.
pub proof fn lemma_a_message_is_read_as_its_value(
    data: &Json,
    frame: Vec<u8>,
    bytes: [u8; 4],
    body: Vec<u8>,
    length_step: ReadStep,
    body_step: ReadStep,
)
    requires
        call_ensures(Json::reads_back, (data,), true),
        call_ensures(send_message, (data,), Ok(frame)),
        frame@.len() <= 1048580,
        bytes@ == frame@.take(4),
        body@ == frame@.skip(4),
        call_ensures(receive_message, (ReceiveEvent::Prefix(bytes),), length_step),
        call_ensures(receive_message, (ReceiveEvent::Body(body),), body_step),
    ensures
        length_step == ReadStep::NeedBody((frame@.len() - 4) as usize),
        body_step matches ReadStep::Done(json) && json@ == data@,
{
    lemma_a_message_is_framed(data, Ok(frame));
    assert(bytes@[0] == frame@[0] && bytes@[1] == frame@[1] && bytes@[2] == frame@[2] && bytes@[3]
        == frame@[3]);
    lemma_client_reads_its_frame(body@, Seq::empty());
    assert(client_frame(body@) + Seq::<u8>::empty() =~= client_frame(
        body@,
    ));
}

/// Each error says its own words, or those of the system or of the parser.
pub proof fn lemma_errors_say_their_words(error: &TcpError, text: String)
    requires
        call_ensures(TcpError::message, (error,), text),
    ensures
        match *error {
            TcpError::Closed => text@ == "连接已关闭"@,
            TcpError::TimedOut => text@ == "读取超时"@,
            TcpError::TooLarge => text@ == "数据包太大"@,
            TcpError::Io(reason) => text@ == reason@,
            TcpError::Json(reason) => text@ == reason.message@,
        },
{
}

} // verus!
