//! The ways through the bridge: what becomes of something from where it comes in to where it
//! goes out.

use vstd::prelude::*;
#[allow(unused_imports)]
use vstd::utf8::encode_utf8;
#[allow(unused_imports)]
use crate::ambient::is_rfc3339;
#[allow(unused_imports)]
use crate::channel::client_source;
#[allow(unused_imports)]
use crate::clients::{Delivery, TcpClientManager};
#[allow(unused_imports)]
use crate::dispatch::{process_ws_to_tcp_messages, DispatchStep};
#[allow(unused_imports)]
use crate::frame::{read_from_tcp, ReadEvent, ReadStep};
#[allow(unused_imports)]
use crate::json::{Json, JsonModel};
#[allow(unused_imports)]
use crate::message::{render_message, ControlMessage, MessageType, TcpClientInfo};
#[allow(unused_imports)]
use crate::promises::clients::{
    lemma_a_request_is_answered_with_everybody, lemma_data_is_dispatched,
};
#[allow(unused_imports)]
use crate::promises::has;
#[allow(unused_imports)]
use crate::promises::sessions::{
    is_marked, lemma_a_session_ends, lemma_a_session_is_opened,
    lemma_what_a_client_sends_is_forwarded, lemma_what_is_for_a_client_is_written,
};
#[allow(unused_imports)]
use crate::promises::websocket::{
    asks_for_clients, asks_to_pass_on, is_meant_by, lemma_a_list_is_rendered,
    lemma_a_request_is_queued, lemma_an_arrival_is_rendered, lemma_data_is_passed_on,
    lemma_data_is_rendered, lemma_messages_are_sent_while_connected, tells_of,
};
#[allow(unused_imports)]
use crate::serde_bridge::{parsed_bytes, written_text};
#[allow(unused_imports)]
use crate::session::{open_session, SessionEvent, SessionStep, TcpSession};
#[allow(unused_imports)]
use crate::websocket::{
    process_ws_messages, WsIncoming, WsIncomingStep, WsServer, WsServerAction, WsServerEvent,
};

verus! {

/// What a client sends in a frame reaches whoever is connected to the WebSocket: as the
/// payload of a data message, marked with the name and address of the client and a time,
/// and otherwise as it was sent.
pub proof fn lemma_from_client_to_websocket(
    body: Vec<u8>,
    json: Json,
    session: &mut TcpSession,
    manager: &mut TcpClientManager,
    message: MessageType,
    server: &mut WsServer,
    rendered: Json,
    action: WsServerAction,
)
    requires
        call_ensures(read_from_tcp, (ReadEvent::Body(body),), ReadStep::Done(json)),
        call_ensures(
            TcpSession::handle_tcp_client,
            (session, manager, SessionEvent::Received(json)),
            SessionStep::Forward(message),
        ),
        call_ensures(render_message, (message,), rendered),
        old(server).connected,
        call_ensures(
            WsServer::run_websocket_server,
            (server, WsServerEvent::Queued(message)),
            action,
        ),
    ensures
        action matches WsServerAction::Send(text) && text@ == written_text(rendered@),
        has(rendered@, "type"@, JsonModel::Text("data"@)),
        exists|said: JsonModel, sent: JsonModel, time: Seq<char>|
            {
                &&& parsed_bytes(body@) == Ok::<JsonModel, Seq<char>>(said)
                &&& has(rendered@, "payload"@, sent)
                &&& is_rfc3339(time)
                &&& #[trigger] is_marked(
                    said,
                    old(session).client_id@,
                    old(session).addr@,
                    time,
                    sent,
                )
            },
{
    lemma_what_a_client_sends_is_forwarded(session, manager, json, SessionStep::Forward(message));
    let sent = message->TcpToWs_0;
    lemma_data_is_rendered(sent, rendered);
    lemma_messages_are_sent_while_connected(server, message, rendered, action);
    let time = choose|time: Seq<char>|
        is_rfc3339(time) && #[trigger] is_marked(
            json@,
            old(session).client_id@,
            old(session).addr@,
            time,
            sent@,
        );
    assert(parsed_bytes(body@) == Ok::<JsonModel, Seq<char>>(json@));
    assert(is_marked(json@, old(session).client_id@, old(session).addr@, time, sent@));
}

/// What the WebSocket sends to a client that is there is written to that client: a text
/// without quotes, or else the JSON of what was meant.
pub proof fn lemma_from_websocket_to_client(
    text: String,
    request: JsonModel,
    target_id: Seq<char>,
    payload: JsonModel,
    step: WsIncomingStep,
    manager: &TcpClientManager,
    message: MessageType,
    dispatched: DispatchStep,
    delivery: Delivery,
    session: &mut TcpSession,
    others: &mut TcpClientManager,
    written: SessionStep,
)
    requires
        call_ensures(process_ws_messages, (WsIncoming::Text(text),), step),
        step is Enqueue ==> message == step->Enqueue_0,
        call_ensures(process_ws_to_tcp_messages, (manager, Some(message)), dispatched),
        dispatched is Deliver ==> delivery == dispatched->Deliver_0,
        call_ensures(
            TcpSession::handle_tcp_client,
            (session, others, SessionEvent::ForClient(delivery.data)),
            written,
        ),
        manager@.contains_key(target_id),
    ensures
        parsed_bytes(encode_utf8(text@)) == Ok::<JsonModel, Seq<char>>(request)
            && asks_to_pass_on(request, target_id, payload) ==> {
            &&& dispatched is Deliver
            &&& delivery.client_id@ == target_id
            &&& delivery.sender == manager@[target_id].sender
            &&& is_meant_by(delivery.data@, payload)
            &&& written matches SessionStep::Write(frame) && frame@.skip(4)
                == match delivery.data@ {
                JsonModel::Text(content) => encode_utf8(content),
                other => encode_utf8(written_text(other)),
            }
        },
{
    lemma_data_is_passed_on(text, request, target_id, payload, step);
    lemma_what_is_for_a_client_is_written(session, others, delivery.data, written);
    if parsed_bytes(encode_utf8(text@)) == Ok::<JsonModel, Seq<char>>(request) && asks_to_pass_on(
        request,
        target_id,
        payload,
    ) {
        lemma_data_is_dispatched(
            manager,
            message->WsToTcp_target_id,
            message->WsToTcp_data,
            dispatched,
        );
    }
}

/// A client can be reached by what the WebSocket is told of its arrival: data for the name in
/// that message goes into the queue of the client that connected.
pub proof fn lemma_a_client_is_reached_by_its_arrival(
    manager: &mut TcpClientManager,
    addr: String,
    opened: (TcpSession, tokio::sync::mpsc::Receiver<Json>, MessageType),
    told: Json,
    present: &TcpClientManager,
    target_id: String,
    data: Json,
    step: DispatchStep,
)
    requires
        call_ensures(open_session, (manager, addr), opened),
        call_ensures(render_message, (opened.2,), told),
        has(told@, "client_id"@, JsonModel::Text(target_id@)),
        present@ == final(manager)@,
        call_ensures(
            process_ws_to_tcp_messages,
            (present, Some(MessageType::WsToTcp { target_id, data })),
            step,
        ),
    ensures
        has(told@, "type"@, JsonModel::Text("control"@)),
        has(told@, "action"@, JsonModel::Text("client_connected"@)),
        has(told@, "addr"@, JsonModel::Text(addr@)),
        step matches DispatchStep::Deliver(delivery) && delivery.sender == client_source(opened.1)
            && delivery.data@ == data@,
{
    lemma_a_session_is_opened(manager, addr, opened, Seq::empty());
    let arrival = opened.2->Control_0;
    lemma_an_arrival_is_rendered(
        arrival->TcpClientConnected_client_id,
        arrival->TcpClientConnected_addr,
        told,
    );
    lemma_data_is_dispatched(present, target_id, data, step);
}

/// Whoever asks for the list of clients gets an entry for each client that is there, and can
/// reach the client by the name in its entry.
pub proof fn lemma_clients_are_reached_by_the_list(
    text: String,
    request: JsonModel,
    asked: WsIncomingStep,
    message: MessageType,
    manager: &TcpClientManager,
    answer: DispatchStep,
    list: Vec<TcpClientInfo>,
    told: Json,
    id: Seq<char>,
)
    requires
        call_ensures(process_ws_messages, (WsIncoming::Text(text),), asked),
        asked is Enqueue ==> message == asked->Enqueue_0,
        call_ensures(process_ws_to_tcp_messages, (manager, Some(message)), answer),
        answer is Reply ==> answer->Reply_0 == MessageType::Control(
            ControlMessage::ClientList(list),
        ),
        call_ensures(
            render_message,
            (MessageType::Control(ControlMessage::ClientList(list)),),
            told,
        ),
        manager@.contains_key(id),
    ensures
        parsed_bytes(encode_utf8(text@)) == Ok::<JsonModel, Seq<char>>(request)
            && asks_for_clients(request) ==> {
            &&& answer is Reply
            &&& exists|entries: Seq<JsonModel>, i: int|
                {
                    &&& #[trigger] has(told@, "clients"@, JsonModel::Array(entries))
                    &&& entries.len() == manager@.len()
                    &&& 0 <= i < entries.len()
                    &&& has(#[trigger] entries[i], "client_id"@, JsonModel::Text(id))
                    &&& has(entries[i], "addr"@, JsonModel::Text(manager@[id].addr))
                    &&& has(
                        entries[i],
                        "connected_at"@,
                        JsonModel::Text(manager@[id].connected_at),
                    )
                }
        },
{
    lemma_a_request_is_queued(text, request, asked);
    lemma_a_list_is_rendered(list, told);
    if parsed_bytes(encode_utf8(text@)) == Ok::<JsonModel, Seq<char>>(request) && asks_for_clients(
        request,
    ) {
        lemma_a_request_is_answered_with_everybody(manager, answer);
        let entries = choose|entries: Seq<JsonModel>|
            {
                &&& #[trigger] has(told@, "clients"@, JsonModel::Array(entries))
                &&& entries.len() == list@.len()
                &&& forall|i: int| 0 <= i < list@.len() ==> tells_of(#[trigger] entries[i], list@[i])
            };
        let i = choose|i: int| 0 <= i < list@.len() && (#[trigger] list@[i]).client_id@ == id;
        assert(tells_of(entries[i], list@[i]));
        assert(has(entries[i], "client_id"@, JsonModel::Text(id)));
    }
}

/// A client whose session has ended is not reached any more, and the others still are as
/// they were.
pub proof fn lemma_nobody_is_reached_after_the_end(
    session: &mut TcpSession,
    manager: &mut TcpClientManager,
    event: SessionEvent,
    step: SessionStep,
    left: &TcpClientManager,
    target_id: String,
    data: Json,
    dispatched: DispatchStep,
)
    requires
        event is ReadFailed || event is QueueClosed || event is WriteFailed,
        call_ensures(TcpSession::handle_tcp_client, (session, manager, event), step),
        left@ == final(manager)@,
        call_ensures(
            process_ws_to_tcp_messages,
            (left, Some(MessageType::WsToTcp { target_id, data })),
            dispatched,
        ),
    ensures
        if target_id@ != old(session).client_id@ && old(manager)@.contains_key(target_id@) {
            dispatched matches DispatchStep::Deliver(delivery) && delivery.sender == old(
                manager,
            )@[target_id@].sender && delivery.data@ == data@
        } else {
            dispatched is Undeliverable
        },
{
    lemma_a_session_ends(session, manager, event, step, target_id@);
    lemma_data_is_dispatched(left, target_id, data, dispatched);
}

} // verus!
