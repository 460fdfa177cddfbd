//! Frames on a TCP connection: a length of four bytes, most significant first,
//! and a body.
//!
//! The two ends count differently. The length that the server writes and reads
//! counts its own four bytes; the one that the terminal client writes and reads
//! counts the body alone.

use vstd::prelude::*;
#[allow(unused_imports)]
use vstd::utf8::encode_utf8;
use byteorder::ByteOrder;
use crate::json::{Json, JsonError};
#[allow(unused_imports)]
use crate::json::JsonModel;
#[allow(unused_imports)]
use crate::serde_bridge::{parsed_bytes, reads_back, success, written_bytes};

verus! {

/// How many bytes the length at the head of a frame takes.
pub const PREFIX_LEN: usize = 4;

/// The longest body that the server reads.
pub const SERVER_BODY_LIMIT: usize = 4096;

/// The longest body that the terminal client reads.
pub const CLIENT_BODY_LIMIT: usize = 1048576;

/// The number that the first four bytes are, most significant first.
pub open spec fn be_value(bytes: Seq<u8>) -> int {
    bytes[0] * 16777216 + bytes[1] * 65536 + bytes[2] * 256 + bytes[3]
}

/// The four bytes of a number, most significant first.
pub open spec fn be_bytes(number: int) -> Seq<u8> {
    seq![
        (number / 16777216) as u8,
        ((number / 65536) % 256) as u8,
        ((number / 256) % 256) as u8,
        (number % 256) as u8,
    ]
}

/// The frame that the server writes round a body. The length has 32 bits: of a
/// body that is longer than they can say, it gives what is left over.
pub open spec fn server_frame(body: Seq<u8>) -> Seq<u8> {
    be_bytes((body.len() + PREFIX_LEN) % 0x1_0000_0000) + body
}

/// The frame that the terminal client writes round a body.
pub open spec fn client_frame(body: Seq<u8>) -> Seq<u8> {
    be_bytes(body.len() as int % 0x1_0000_0000) + body
}

/// How long a body is read after this length into room for `limit` bytes, if one is read:
/// a length that does not even count itself announces none, and one for which there is no
/// room is refused.
pub open spec fn body_len_within(prefix: Seq<u8>, limit: int) -> Option<nat> {
    if PREFIX_LEN <= be_value(prefix) <= PREFIX_LEN + limit {
        Some((be_value(prefix) - PREFIX_LEN) as nat)
    } else {
        None
    }
}

/// How long a body the server reads after this length, if it reads one.
pub open spec fn server_body_len(prefix: Seq<u8>) -> Option<nat> {
    body_len_within(prefix, SERVER_BODY_LIMIT as int)
}

/// How long a body the terminal client reads after this length, if it reads one.
pub open spec fn client_body_len(prefix: Seq<u8>) -> Option<nat> {
    if be_value(prefix) <= CLIENT_BODY_LIMIT {
        Some(be_value(prefix) as nat)
    } else {
        None
    }
}

/// `byteorder::BigEndian::read_u32`: the number that the first four bytes are, most
/// significant first. It panics on fewer bytes.
#[verifier::external_body]
fn read_u32(bytes: &[u8]) -> (number: u32)
    requires
        bytes@.len() >= 4,
    ensures
        number == be_value(bytes@),
{
    byteorder::BigEndian::read_u32(bytes)
}

/// `byteorder::BigEndian::write_u32`: writes a number into four bytes, most
/// significant first.
#[verifier::external_body]
fn write_u32(bytes: &mut [u8; 4], number: u32)
    ensures
        final(bytes)@ == be_bytes(number as int),
{
    byteorder::BigEndian::write_u32(bytes, number)
}

/// A length survives being written and read.
pub proof fn lemma_be_round_trip(number: int)
    requires
        0 <= number < 0x1_0000_0000,
    ensures
        be_value(be_bytes(number)) == number,
{
    let low = number % 65536;
    assert(number / 65536 / 256 == number / 16777216);
    assert(low / 256 == (number / 256) % 256);
}

/// What is wrong with a connection or with what came in on it.
#[derive(Debug, PartialEq)]
pub enum TcpError {
    /// The connection is closed.
    Closed,
    /// Nothing came in time.
    TimedOut,
    /// The length at the head of the frame is out of bounds.
    TooLarge,
    /// Reading or writing failed; this is what the system says.
    Io(String),
    /// The body is no JSON.
    Json(JsonError),
}

/// What an error says when it is printed.
pub open spec fn tcp_error_text(error: TcpError) -> Seq<char> {
    match error {
        TcpError::Closed => "连接已关闭"@,
        TcpError::TimedOut => "读取超时"@,
        TcpError::TooLarge => "数据包太大"@,
        TcpError::Io(text) => text@,
        TcpError::Json(error) => error.message@,
    }
}

impl TcpError {
    /// What this error says when it is printed.
    pub fn message(&self) -> (text: String)
        ensures
            text@ == tcp_error_text(*self),
    {
        match self {
            TcpError::Closed => "连接已关闭".to_owned(),
            TcpError::TimedOut => "读取超时".to_owned(),
            TcpError::TooLarge => "数据包太大".to_owned(),
            TcpError::Io(text) => text.clone(),
            TcpError::Json(error) => error.message.clone(),
        }
    }
}

/// Puts a length in front of a body.
fn prefixed(length: u32, body: Vec<u8>) -> (frame: Vec<u8>)
    ensures
        frame@ == be_bytes(length as int) + body@,
{
    let mut prefix: [u8; 4] = [0u8; 4];
    write_u32(&mut prefix, length);
    let mut frame: Vec<u8> = Vec::new();
    let mut i: usize = 0;
    while i < 4
        invariant
            i <= 4,
            frame@ == prefix@.take(i as int),
        decreases 4 - i,
    {
        frame.push(prefix[i]);
        proof {
            assert(prefix@.take(i + 1) =~= prefix@.take(i as int).push(prefix@[i as int]));
        }
        i = i + 1;
    }
    assert(prefix@.take(4) =~= prefix@);
    let mut body = body;
    frame.append(&mut body);
    frame
}

/// The low 32 bits of a length.
fn low_bits(length: usize) -> (low: u32)
    ensures
        low == length as int % 0x1_0000_0000,
{
    let wide: u64 = length as u64;
    assert(wide as u32 == wide % 0x1_0000_0000) by (bit_vector);
    wide as u32
}

/// The body that is taken off what comes in, with room for `limit` bytes, if a whole frame
/// that is accepted is there.
pub open spec fn body_within(stream: Seq<u8>, limit: int) -> Option<Seq<u8>> {
    if stream.len() < PREFIX_LEN {
        None
    } else {
        match body_len_within(stream, limit) {
            Some(n) => if PREFIX_LEN + n <= stream.len() {
                Some(stream.subrange(PREFIX_LEN as int, PREFIX_LEN + n))
            } else {
                None
            },
            None => None,
        }
    }
}

/// The body that the server takes off what comes in, if a whole frame that it
/// accepts is there.
pub open spec fn server_body(stream: Seq<u8>) -> Option<Seq<u8>> {
    body_within(stream, SERVER_BODY_LIMIT as int)
}

/// The body that the terminal client takes off what comes in, if a whole frame
/// that it accepts is there.
pub open spec fn client_body(stream: Seq<u8>) -> Option<Seq<u8>> {
    if stream.len() < PREFIX_LEN {
        None
    } else {
        match client_body_len(stream) {
            Some(n) => if PREFIX_LEN + n <= stream.len() {
                Some(stream.subrange(PREFIX_LEN as int, PREFIX_LEN + n))
            } else {
                None
            },
            None => None,
        }
    }
}

/// What the server sends for a value: a text as it is, without quotes, and any
/// other value as JSON.
pub open spec fn response_body(response: JsonModel) -> Seq<u8> {
    match response {
        JsonModel::Text(text) => encode_utf8(text),
        other => written_bytes(other),
    }
}

/// What happened when the server read from a connection.
#[derive(Debug)]
pub enum ReadEvent {
    /// The length came in: how many bytes were read, and the bytes.
    Prefix { count: usize, bytes: [u8; 4] },
    /// The body came in.
    Body(Vec<u8>),
    /// Reading failed; this is what the system says.
    Failed(String),
}

/// What the server does next.
#[derive(Debug)]
pub enum ReadStep {
    /// Read a body of this length.
    NeedBody(usize),
    /// A value was read.
    Done(Json),
    /// Nothing could be read.
    Failed(TcpError),
}

/// Whether a step is what a body calls for: the value in it, or what is wrong
/// with it.
pub open spec fn is_body_step(body: Seq<u8>, step: ReadStep) -> bool {
    match parsed_bytes(body) {
        Ok(value) => step matches ReadStep::Done(json) && json@ == value,
        Err(text) => step matches ReadStep::Failed(TcpError::Json(error)) && error.message@ == text,
    }
}

/// What comes of a body, given what reading it as JSON came to.
pub fn body_step(read: Result<Json, JsonError>) -> (step: ReadStep)
    ensures
        step == match read {
            Ok(json) => ReadStep::Done(json),
            Err(error) => ReadStep::Failed(TcpError::Json(error)),
        },
{
    match read {
        Ok(json) => ReadStep::Done(json),
        Err(error) => ReadStep::Failed(TcpError::Json(error)),
    }
}

/// Whether a step of reading a frame, with room for a body of `limit` bytes, is what an
/// event calls for.
pub open spec fn is_read_step(limit: int, event: ReadEvent, step: ReadStep) -> bool {
    match event {
        ReadEvent::Prefix { count, bytes } => if count == 0 {
            step == ReadStep::Failed(TcpError::Closed)
        } else {
            match body_len_within(bytes@, limit) {
                Some(n) => step matches ReadStep::NeedBody(len) && len == n,
                None => step == ReadStep::Failed(TcpError::TooLarge),
            }
        },
        ReadEvent::Body(body) => is_body_step(body@, step),
        ReadEvent::Failed(text) => step == ReadStep::Failed(TcpError::Io(text)),
    }
}

/// One step of reading a frame into a buffer of `limit` bytes. The length comes first: it
/// says how long the body is, or is refused. A length below four, which does not even
/// count itself, is refused like one above the limit. The body comes next, and must
/// be JSON.
pub fn read_within(limit: usize, event: ReadEvent) -> (step: ReadStep)
    ensures
        is_read_step(limit as int, event, step),
        step matches ReadStep::NeedBody(len) ==> len <= limit,
{
    match event {
        ReadEvent::Prefix { count, bytes } => {
            if count == 0 {
                return ReadStep::Failed(TcpError::Closed);
            }
            let announced: u32 = read_u32(&bytes);
            if announced < 4 || announced as usize - PREFIX_LEN > limit {
                ReadStep::Failed(TcpError::TooLarge)
            } else {
                ReadStep::NeedBody(announced as usize - PREFIX_LEN)
            }
        },
        ReadEvent::Body(body) => body_step(Json::from_bytes(body.as_slice())),
        ReadEvent::Failed(text) => ReadStep::Failed(TcpError::Io(text)),
    }
}

/// One step of reading a frame on the server, which has room for a body of
/// `SERVER_BODY_LIMIT` bytes.
pub fn read_from_tcp(event: ReadEvent) -> (step: ReadStep)
    ensures
        is_read_step(SERVER_BODY_LIMIT as int, event, step),
        step matches ReadStep::NeedBody(len) ==> len <= SERVER_BODY_LIMIT,
{
    read_within(SERVER_BODY_LIMIT, event)
}

/// What the server sends for a value, without the length.
fn response_bytes(response: &Json) -> (body: Result<Vec<u8>, JsonError>)
    ensures
        body is Ok,
        body->Ok_0@ == response_body(response@),
        !(response@ is Text) && reads_back(response@) ==> parsed_bytes(body->Ok_0@) == success(
            response@,
        ),
{
    match response.as_text() {
        Some(text) => Ok(text.as_bytes_vec()),
        None => response.to_bytes(),
    }
}

/// The length that the server writes at the head of a frame.
fn server_length(body_len: usize) -> (length: u32)
    ensures
        length == (body_len + PREFIX_LEN) % 0x1_0000_0000,
{
    let low: u32 = low_bits(body_len);
    let ghost whole: int = body_len as int / 0x1_0000_0000;
    assert(body_len == whole * 0x1_0000_0000 + low);
    low.wrapping_add(4)
}

/// The frame that the server sends for a value. The server itself, reading that
/// frame, gets back a value that is no text, fits the limit and reads back.
pub fn send_response(response: &Json) -> (sent: Result<Vec<u8>, JsonError>)
    ensures
        sent is Ok,
        sent->Ok_0@ == server_frame(response_body(response@)),
        !(response@ is Text) && reads_back(response@) && response_body(response@).len()
            <= SERVER_BODY_LIMIT ==> match server_body(sent->Ok_0@) {
            Some(body) => parsed_bytes(body) == success(response@),
            None => false,
        },
{
    let body = match response_bytes(response) {
        Ok(bytes) => bytes,
        Err(error) => return Err(error),
    };
    let length: u32 = server_length(body.len());
    proof {
        if body@.len() <= SERVER_BODY_LIMIT {
            lemma_server_reads_its_frame(body@, Seq::empty());
            assert(server_frame(body@) + Seq::<u8>::empty() =~= server_frame(body@));
        }
    }
    Ok(prefixed(length, body))
}

/// What happened when the terminal client read from its connection.
#[derive(Debug)]
pub enum ReceiveEvent {
    /// The length came in.
    Prefix([u8; 4]),
    /// The body came in.
    Body(Vec<u8>),
    /// Reading failed; this is what the system says.
    Failed(String),
    /// Nothing came in time.
    TimedOut,
}

/// One step of reading a frame in the terminal client.
pub fn receive_message(event: ReceiveEvent) -> (step: ReadStep)
    ensures
        match event {
            ReceiveEvent::Prefix(bytes) => match client_body_len(bytes@) {
                Some(n) => step == ReadStep::NeedBody(n as usize) && n <= CLIENT_BODY_LIMIT,
                None => step == ReadStep::Failed(TcpError::TooLarge),
            },
            ReceiveEvent::Body(body) => is_body_step(body@, step),
            ReceiveEvent::Failed(text) => step == ReadStep::Failed(TcpError::Io(text)),
            ReceiveEvent::TimedOut => step == ReadStep::Failed(TcpError::TimedOut),
        },
{
    match event {
        ReceiveEvent::Prefix(bytes) => {
            let announced: usize = read_u32(&bytes) as usize;
            if announced > CLIENT_BODY_LIMIT {
                ReadStep::Failed(TcpError::TooLarge)
            } else {
                ReadStep::NeedBody(announced)
            }
        },
        ReceiveEvent::Body(body) => body_step(Json::from_bytes(body.as_slice())),
        ReceiveEvent::Failed(text) => ReadStep::Failed(TcpError::Io(text)),
        ReceiveEvent::TimedOut => ReadStep::Failed(TcpError::TimedOut),
    }
}

/// The frame that the terminal client sends for a value. A terminal client, reading
/// that frame, gets back a value that fits the limit and reads back.
pub fn send_message(data: &Json) -> (sent: Result<Vec<u8>, JsonError>)
    ensures
        sent is Ok,
        sent->Ok_0@ == client_frame(written_bytes(data@)),
        reads_back(data@) && written_bytes(data@).len() <= CLIENT_BODY_LIMIT ==> match client_body(
            sent->Ok_0@,
        ) {
            Some(body) => parsed_bytes(body) == success(data@),
            None => false,
        },
{
    let body = match data.to_bytes() {
        Ok(bytes) => bytes,
        Err(error) => return Err(error),
    };
    let length: u32 = low_bits(body.len());
    proof {
        if body@.len() <= CLIENT_BODY_LIMIT {
            lemma_client_reads_its_frame(body@, Seq::empty());
            assert(client_frame(body@) + Seq::<u8>::empty() =~= client_frame(body@));
        }
    }
    Ok(prefixed(length, body))
}

/// How many bytes of a body a step asks for.
pub open spec fn wanted(step: ReadStep) -> nat {
    match step {
        ReadStep::NeedBody(len) => len as nat,
        _ => 0,
    }
}

/// Whether two steps come to the same: they ask for as much, hold the same value, or fail
/// for the same reason.
pub open spec fn same_step(a: ReadStep, b: ReadStep) -> bool {
    match (a, b) {
        (ReadStep::NeedBody(m), ReadStep::NeedBody(n)) => m == n,
        (ReadStep::Done(x), ReadStep::Done(y)) => x@ == y@,
        (ReadStep::Failed(TcpError::Json(x)), ReadStep::Failed(TcpError::Json(y))) => x.message@
            == y.message@,
        (ReadStep::Failed(x), ReadStep::Failed(y)) => x == y,
        _ => false,
    }
}

/// What is read depends on what comes in and on how long the buffer is, not on what is in
/// the buffer: with buffers of one length, what comes in leads to the same step, and as
/// many bytes are taken off it.
pub proof fn lemma_read_ignores_buffer_contents(
    buffer: Seq<u8>,
    other: Seq<u8>,
    event: ReadEvent,
    a: ReadStep,
    b: ReadStep,
)
    requires
        buffer.len() == other.len(),
        is_read_step(buffer.len() as int, event, a),
        is_read_step(other.len() as int, event, b),
    ensures
        same_step(a, b),
        wanted(a) == wanted(b),
{
}

/// Reading a frame never takes more off what comes in than the length and as many bytes as
/// the buffer has room for. It takes the length and what the step after the length asks
/// for, and where that much has come in, the body is what it gets.
pub proof fn lemma_read_is_bounded(
    stream: Seq<u8>,
    buffer: Seq<u8>,
    count: usize,
    bytes: [u8; 4],
    step: ReadStep,
)
    requires
        count != 0,
        stream.len() >= PREFIX_LEN,
        bytes@ == stream.take(PREFIX_LEN as int),
        is_read_step(buffer.len() as int, ReadEvent::Prefix { count, bytes }, step),
    ensures
        PREFIX_LEN + wanted(step) <= PREFIX_LEN + buffer.len(),
        step is NeedBody && PREFIX_LEN + wanted(step) <= stream.len() ==> body_within(
            stream,
            buffer.len() as int,
        ) == Some(stream.subrange(PREFIX_LEN as int, (PREFIX_LEN + wanted(step)) as int)),
        !(step is NeedBody) || PREFIX_LEN + wanted(step) > stream.len() ==> body_within(
            stream,
            buffer.len() as int,
        ) is None,
{
    assert(be_value(bytes@) == be_value(stream));
}

/// The server takes exactly the body off a frame that it wrote itself, whatever
/// comes after the frame, as long as the body fits the limit.
pub proof fn lemma_server_reads_its_frame(body: Seq<u8>, rest: Seq<u8>)
    requires
        body.len() <= SERVER_BODY_LIMIT,
    ensures
        server_body(server_frame(body) + rest) == Some(body),
{
    let length = (body.len() + PREFIX_LEN) as int;
    lemma_be_round_trip(length);
    let stream = server_frame(body) + rest;
    assert(stream.take(4) =~= be_bytes(length));
    assert(be_value(stream) == be_value(be_bytes(length)));
    assert(stream.subrange(4, 4 + body.len() as int) =~= body);
}

/// The terminal client takes exactly the body off a frame that a terminal client
/// wrote, whatever comes after the frame, as long as the body fits the limit.
pub proof fn lemma_client_reads_its_frame(body: Seq<u8>, rest: Seq<u8>)
    requires
        body.len() <= CLIENT_BODY_LIMIT,
    ensures
        client_body(client_frame(body) + rest) == Some(body),
{
    let length = body.len() as int;
    lemma_be_round_trip(length);
    let stream = client_frame(body) + rest;
    assert(stream.take(4) =~= be_bytes(length));
    assert(be_value(stream) == be_value(be_bytes(length)));
    assert(stream.subrange(4, 4 + body.len() as int) =~= body);
}

/// Of a frame that the terminal client wrote the server takes the body without its
/// last four bytes, and leaves those for the next frame.
pub proof fn lemma_server_cuts_client_frame(body: Seq<u8>, rest: Seq<u8>)
    requires
        PREFIX_LEN <= body.len() <= PREFIX_LEN + SERVER_BODY_LIMIT,
    ensures
        server_body(client_frame(body) + rest) == Some(body.take(body.len() - PREFIX_LEN)),
{
    let length = body.len() as int;
    lemma_be_round_trip(length);
    let stream = client_frame(body) + rest;
    assert(stream.take(4) =~= be_bytes(length));
    assert(be_value(stream) == be_value(be_bytes(length)));
    assert(stream.subrange(4, body.len() as int) =~= body.take(body.len() - 4));
}

/// A frame that the terminal client wrote round fewer than four bytes, or round
/// more than the server's limit and four, the server refuses.
pub proof fn lemma_server_refuses_client_frame(body: Seq<u8>, rest: Seq<u8>)
    requires
        body.len() < PREFIX_LEN || PREFIX_LEN + SERVER_BODY_LIMIT < body.len() < 0x1_0000_0000,
    ensures
        server_body_len(client_frame(body) + rest) is None,
{
    let length = body.len() as int;
    lemma_be_round_trip(length);
    let stream = client_frame(body) + rest;
    assert(stream.take(4) =~= be_bytes(length));
    assert(be_value(stream) == be_value(be_bytes(length)));
}

/// Of a frame that the server wrote the terminal client waits for four bytes more
/// than the body has, and takes them from whatever comes next.
pub proof fn lemma_client_overreads_server_frame(body: Seq<u8>, rest: Seq<u8>)
    requires
        body.len() + PREFIX_LEN <= CLIENT_BODY_LIMIT,
    ensures
        client_body(server_frame(body) + rest) == if rest.len() >= PREFIX_LEN {
            Some(body + rest.take(PREFIX_LEN as int))
        } else {
            None::<Seq<u8>>
        },
{
    let length = (body.len() + PREFIX_LEN) as int;
    lemma_be_round_trip(length);
    let stream = server_frame(body) + rest;
    assert(stream.take(4) =~= be_bytes(length));
    assert(be_value(stream) == be_value(be_bytes(length)));
    if rest.len() >= 4 {
        assert(stream.subrange(4, 4 + length) =~= body + rest.take(4));
    }
}

} // verus!
