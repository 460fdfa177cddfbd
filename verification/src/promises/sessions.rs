//! The life of one TCP client.

use vstd::prelude::*;
#[allow(unused_imports)]
use vstd::utf8::encode_utf8;
#[allow(unused_imports)]
use crate::ambient::{is_rfc3339, is_uuid_v4};
#[allow(unused_imports)]
use crate::channel::{client_capacity, client_source};
#[allow(unused_imports)]
use crate::clients::TcpClientManager;
#[allow(unused_imports)]
use crate::frame::{be_bytes, lemma_be_round_trip, TcpError};
#[allow(unused_imports)]
use crate::json::{Json, JsonModel};
#[allow(unused_imports)]
use crate::laws::lemma_names;
#[allow(unused_imports)]
use crate::message::{ControlMessage, MessageType};
#[allow(unused_imports)]
use crate::promises::has;
#[allow(unused_imports)]
use crate::serde_bridge::written_text;
#[allow(unused_imports)]
use crate::session::{
    enrich, event_messages, open_session, step_messages, tells, SessionEvent, SessionStep,
    TcpSession,
};

verus! {

/// Whether a value is what a client said, with the mark of where it came from and when: an
/// object has those three members and every other one exactly as the client sent it, and
/// any other value is what the client sent.
pub open spec fn is_marked(
    said: JsonModel,
    client_id: Seq<char>,
    addr: Seq<char>,
    time: Seq<char>,
    marked: JsonModel,
) -> bool {
    match said {
        JsonModel::Object(_) => {
            &&& has(marked, "client_id"@, JsonModel::Text(client_id))
            &&& has(marked, "source_addr"@, JsonModel::Text(addr))
            &&& has(marked, "timestamp"@, JsonModel::Text(time))
            &&& forall|name: Seq<char>, member: JsonModel|
                name != "client_id"@ && name != "source_addr"@ && name != "timestamp"@
                    ==> #[trigger] has(marked, name, member) == has(said, name, member)
        },
        _ => marked == said,
    }
}

/// What a client said is marked and otherwise left alone.
pub proof fn lemma_data_is_marked(
    data: Json,
    client_id: &str,
    addr: &str,
    timestamp: &str,
    json: Json,
)
    requires
        call_ensures(enrich, (data, client_id, addr, timestamp), json),
    ensures
        is_marked(data@, client_id@, addr@, timestamp@, json@),
{
    lemma_names();
}

/// A client that connects is there from then on, under the name of its session, with its
/// address, a time and a queue of its own from which the session takes. The others
/// stay. The WebSocket is told of it by that name and address.
pub proof fn lemma_a_session_is_opened(
    manager: &mut TcpClientManager,
    addr: String,
    opened: (TcpSession, tokio::sync::mpsc::Receiver<Json>, MessageType),
    other: Seq<char>,
)
    requires
        call_ensures(open_session, (manager, addr), opened),
    ensures
        is_uuid_v4(opened.0.client_id@),
        opened.0.addr@ == addr@,
        opened.0.open,
        final(manager)@.contains_key(opened.0.client_id@),
        final(manager)@[opened.0.client_id@].client_id == opened.0.client_id@,
        final(manager)@[opened.0.client_id@].addr == addr@,
        final(manager)@[opened.0.client_id@].sender == client_source(opened.1),
        is_rfc3339(final(manager)@[opened.0.client_id@].connected_at),
        client_capacity(client_source(opened.1)) == 32,
        opened.2 matches MessageType::Control(
            ControlMessage::TcpClientConnected { client_id, addr: told },
        ) && client_id@ == opened.0.client_id@ && told@ == addr@,
        other != opened.0.client_id@ ==> {
            &&& final(manager)@.contains_key(other) == old(manager)@.contains_key(other)
            &&& final(manager)@[other] == old(manager)@[other]
        },
{
}

/// Each value that a client sends is forwarded to the WebSocket side, marked and otherwise
/// unchanged. Nothing else changes, and the session goes on.
pub proof fn lemma_what_a_client_sends_is_forwarded(
    session: &mut TcpSession,
    manager: &mut TcpClientManager,
    data: Json,
    step: SessionStep,
)
    requires
        call_ensures(
            TcpSession::handle_tcp_client,
            (session, manager, SessionEvent::Received(data)),
            step,
        ),
    ensures
        step matches SessionStep::Forward(MessageType::TcpToWs(sent)) && exists|time: Seq<char>|
            is_rfc3339(time) && #[trigger] is_marked(
                data@,
                old(session).client_id@,
                old(session).addr@,
                time,
                sent@,
            ),
        final(session).client_id@ == old(session).client_id@,
        final(session).addr@ == old(session).addr@,
        final(session).open,
        final(manager)@ == old(manager)@,
{
    lemma_names();
    let event = SessionEvent::Received(data);
    let id = old(session).client_id@;
    let addr = old(session).addr@;
    assert(tells(id, addr, event, step));
    let time = choose|time: Seq<char>|
        (event is Received ==> is_rfc3339(time)) && step_messages(step)
            == #[trigger] event_messages(id, addr, event, time);
    assert(step_messages(step)[0] == event_messages(id, addr, event, time)[0]);
    assert(is_marked(data@, id, addr, time, step->Forward_0->TcpToWs_0@));
}

/// Each value for a client is written to it: a text without quotes, or else the JSON of the
/// value, behind four bytes that give its length and count themselves. Nothing else
/// changes, and the session goes on.
pub proof fn lemma_what_is_for_a_client_is_written(
    session: &mut TcpSession,
    manager: &mut TcpClientManager,
    data: Json,
    step: SessionStep,
)
    requires
        call_ensures(
            TcpSession::handle_tcp_client,
            (session, manager, SessionEvent::ForClient(data)),
            step,
        ),
    ensures
        step matches SessionStep::Write(frame) && {
            let body = match data@ {
                JsonModel::Text(text) => encode_utf8(text),
                other => encode_utf8(written_text(other)),
            };
            &&& frame@.len() == body.len() + 4
            &&& frame@.skip(4) == body
            &&& frame@[0] * 16777216 + frame@[1] * 65536 + frame@[2] * 256 + frame@[3] == (
            body.len() + 4) % 0x1_0000_0000
        },
        final(session).client_id@ == old(session).client_id@,
        final(session).addr@ == old(session).addr@,
        final(session).open,
        final(manager)@ == old(manager)@,
{
    let body = match data@ {
        JsonModel::Text(text) => encode_utf8(text),
        other => encode_utf8(written_text(other)),
    };
    let frame = step->Write_0@;
    lemma_be_round_trip((body.len() + 4) as int % 0x1_0000_0000);
    assert(frame.skip(4) =~= body);
    assert(frame.take(4) =~= be_bytes((body.len() + 4) as int % 0x1_0000_0000));
    assert(frame[0] == frame.take(4)[0] && frame[1] == frame.take(4)[1] && frame[2]
        == frame.take(4)[2] && frame[3] == frame.take(4)[3]);
}

/// A frame that was written changes nothing.
pub proof fn lemma_a_session_goes_on_after_writing(
    session: &mut TcpSession,
    manager: &mut TcpClientManager,
    step: SessionStep,
)
    requires
        call_ensures(
            TcpSession::handle_tcp_client,
            (session, manager, SessionEvent::Written),
            step,
        ),
    ensures
        step is Wait,
        final(session).client_id@ == old(session).client_id@,
        final(session).addr@ == old(session).addr@,
        final(session).open,
        final(manager)@ == old(manager)@,
{
}

/// Where nothing can be read any more, no more is to come for the client, or writing failed,
/// the session ends with what was wrong, if anything was. The client is let go, the
/// others stay, and the WebSocket is told by name who went.
pub proof fn lemma_a_session_ends(
    session: &mut TcpSession,
    manager: &mut TcpClientManager,
    event: SessionEvent,
    step: SessionStep,
    other: Seq<char>,
)
    requires
        event is ReadFailed || event is QueueClosed || event is WriteFailed,
        call_ensures(TcpSession::handle_tcp_client, (session, manager, event), step),
    ensures
        step matches SessionStep::Finish {
            result,
            notification: MessageType::Control(ControlMessage::TcpClientDisconnected { client_id }),
        } && client_id@ == old(session).client_id@ && match event {
            SessionEvent::ReadFailed(error) => result == Err::<(), TcpError>(error),
            SessionEvent::WriteFailed(text) => result == Err::<(), TcpError>(TcpError::Io(text)),
            _ => result == Ok::<(), TcpError>(()),
        },
        final(session).client_id@ == old(session).client_id@,
        final(session).addr@ == old(session).addr@,
        !final(session).open,
        !final(manager)@.contains_key(old(session).client_id@),
        other != old(session).client_id@ ==> {
            &&& final(manager)@.contains_key(other) == old(manager)@.contains_key(other)
            &&& old(manager)@.contains_key(other) ==> final(manager)@[other] == old(manager)@[other]
        },
{
    let id = old(session).client_id@;
    let addr = old(session).addr@;
    assert(tells(id, addr, event, step));
    let time = choose|time: Seq<char>|
        (event is Received ==> is_rfc3339(time)) && step_messages(step)
            == #[trigger] event_messages(id, addr, event, time);
    assert(step_messages(step)[0] == event_messages(id, addr, event, time)[0]);
}

} // verus!
