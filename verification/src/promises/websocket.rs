//! The WebSocket: what comes in on it, what goes out on it, and which connection it is.

use vstd::prelude::*;
#[allow(unused_imports)]
use vstd::utf8::encode_utf8;
#[allow(unused_imports)]
use crate::json::{Json, JsonError, JsonModel};
#[allow(unused_imports)]
use crate::laws::{lemma_names, lemma_values};
#[allow(unused_imports)]
use crate::message::{
    process_data, render_message, ControlMessage, MessageType, TcpClientInfo,
};
#[allow(unused_imports)]
use crate::promises::has;
#[allow(unused_imports)]
use crate::serde_bridge::{parsed_bytes, written_text};
#[allow(unused_imports)]
use crate::websocket::{
    process_if_current, process_ws_messages, read_request, route_json, settle_payload,
    unwrap_payload, WsIncoming, WsIncomingStep, WsRequest, WsServer, WsServerAction, WsServerEvent,
};

verus! {

/// Whether a value asks for data to be passed on: its type is `data`, its target is a text
/// and it has a payload.
pub open spec fn asks_to_pass_on(
    request: JsonModel,
    target_id: Seq<char>,
    payload: JsonModel,
) -> bool {
    &&& has(request, "type"@, JsonModel::Text("data"@))
    &&& has(request, "target_id"@, JsonModel::Text(target_id))
    &&& has(request, "payload"@, payload)
}

/// Whether a value asks for the list of clients.
pub open spec fn asks_for_clients(request: JsonModel) -> bool {
    &&& has(request, "type"@, JsonModel::Text("control"@))
    &&& has(request, "action"@, JsonModel::Text("request_client_list"@))
}

/// Whether a value asks for neither.
pub open spec fn asks_for_nothing(request: JsonModel) -> bool {
    &&& !asks_for_clients(request)
    &&& forall|target_id: Seq<char>, payload: JsonModel|
        !(#[trigger] asks_to_pass_on(request, target_id, payload))
}

/// Whether data is what is meant by a payload: what a text that is JSON is parsed as, and
/// otherwise the payload itself.
pub open spec fn is_meant_by(data: JsonModel, payload: JsonModel) -> bool {
    match payload {
        JsonModel::Text(text) => match parsed_bytes(encode_utf8(text)) {
            Ok(value) => data == value,
            Err(_) => data == payload,
        },
        _ => data == payload,
    }
}

/// Data is passed on to the client that it is for, whatever it holds: the payload, or what a
/// payload that is a JSON text says.
pub proof fn lemma_data_is_passed_on(
    text: String,
    request: JsonModel,
    target_id: Seq<char>,
    payload: JsonModel,
    step: WsIncomingStep,
)
    requires
        call_ensures(process_ws_messages, (WsIncoming::Text(text),), step),
    ensures
        parsed_bytes(encode_utf8(text@)) == Ok::<JsonModel, Seq<char>>(request)
            && asks_to_pass_on(request, target_id, payload) ==> (
        step matches WsIncomingStep::Enqueue(MessageType::WsToTcp { target_id: id, data }) && id@
            == target_id && is_meant_by(data@, payload)),
{
}

/// A request for the list of clients is queued as one.
pub proof fn lemma_a_request_is_queued(text: String, request: JsonModel, step: WsIncomingStep)
    requires
        call_ensures(process_ws_messages, (WsIncoming::Text(text),), step),
    ensures
        parsed_bytes(encode_utf8(text@)) == Ok::<JsonModel, Seq<char>>(request)
            && asks_for_clients(request) ==> (step matches WsIncomingStep::Enqueue(
            MessageType::Control(ControlMessage::RequestClientList),
        )),
{
    lemma_values();
}

/// Every other value is ignored, and a text that is no JSON is refused with what the parser
/// says of it.
pub proof fn lemma_anything_else_is_ignored(text: String, step: WsIncomingStep)
    requires
        call_ensures(process_ws_messages, (WsIncoming::Text(text),), step),
    ensures
        match parsed_bytes(encode_utf8(text@)) {
            Ok(request) => asks_for_nothing(request) ==> step is Skip,
            Err(reason) => step matches WsIncomingStep::Invalid(error) && error.message@ == reason,
        },
{
    if let Ok(request) = parsed_bytes(encode_utf8(text@)) {
        if request is Object && asks_for_nothing(request) {
            let members = request->Object_0;
            let id = members["target_id"@]->Text_0;
            let payload = members["payload"@];
            assert(!asks_to_pass_on(request, id, payload));
        }
    }
}

/// Messages of other kinds are skipped, and after an error or the end nothing is read.
pub proof fn lemma_the_end_is_the_end(
    other: WsIncomingStep,
    failed: WsIncomingStep,
    ended: WsIncomingStep,
)
    requires
        call_ensures(process_ws_messages, (WsIncoming::Other,), other),
        call_ensures(process_ws_messages, (WsIncoming::Failed,), failed),
        call_ensures(process_ws_messages, (WsIncoming::Ended,), ended),
    ensures
        other is Skip,
        failed is Stop,
        ended is Stop,
{
}

/// Whether a step is what a text calls for: data is passed on, a request for the list of
/// clients is queued, any other value is ignored, and what is no JSON is refused.
pub open spec fn answers(text: Seq<char>, step: WsIncomingStep) -> bool {
    match parsed_bytes(encode_utf8(text)) {
        Ok(request) => {
            &&& forall|target_id: Seq<char>, payload: JsonModel| #[trigger]
                asks_to_pass_on(request, target_id, payload) ==> (
                step matches WsIncomingStep::Enqueue(MessageType::WsToTcp { target_id: id, data })
                    && id@ == target_id && is_meant_by(data@, payload))
            &&& asks_for_clients(request) ==> (step matches WsIncomingStep::Enqueue(
                MessageType::Control(ControlMessage::RequestClientList),
            ))
            &&& asks_for_nothing(request) ==> step is Skip
        },
        Err(reason) => step matches WsIncomingStep::Invalid(error) && error.message@ == reason,
    }
}

/// What comes in on the connection that was accepted last is answered like any text, and
/// from any other connection nothing is taken.
pub proof fn lemma_only_the_current_connection_is_heard(
    server: &WsServer,
    connection: u64,
    text: String,
    current: bool,
    step: WsIncomingStep,
    received: WsIncomingStep,
)
    requires
        call_ensures(process_if_current, (current, WsIncoming::Text(text)), step),
        call_ensures(WsServer::receive, (server, connection, WsIncoming::Text(text)), received),
    ensures
        if current {
            answers(text@, step)
        } else {
            step is Stop
        },
        if connection == server.connection {
            answers(text@, received)
        } else {
            received is Stop
        },
{
    lemma_values();
    if let Ok(value) = parsed_bytes(encode_utf8(text@)) {
        if value is Object && asks_for_nothing(value) {
            let members = value->Object_0;
            let id = members["target_id"@]->Text_0;
            assert(!asks_to_pass_on(value, id, members["payload"@]));
        }
    }
}

/// On the current connection messages of other kinds are skipped, and an error or the end is
/// the end; on any other connection everything is.
pub proof fn lemma_the_current_connection_may_end(
    server: &WsServer,
    connection: u64,
    incoming: WsIncoming,
    step: WsIncomingStep,
    received: WsIncomingStep,
    other: WsIncomingStep,
)
    requires
        call_ensures(process_if_current, (true, incoming), step),
        call_ensures(WsServer::receive, (server, server.connection, incoming), received),
        connection != server.connection,
        call_ensures(WsServer::receive, (server, connection, incoming), other),
    ensures
        other is Stop,
        incoming is Other ==> step is Skip && received is Skip,
        incoming is Failed || incoming is Ended ==> step is Stop && received is Stop,
{
}

/// What a value asks for is understood by its members.
pub proof fn lemma_requests_are_understood(
    json: Json,
    request: WsRequest,
    target_id: Seq<char>,
    payload: JsonModel,
)
    requires
        call_ensures(read_request, (json,), request),
    ensures
        asks_to_pass_on(json@, target_id, payload) ==> (request matches WsRequest::Data {
            target_id: id,
            payload: given,
        } && id@ == target_id && given@ == payload),
        asks_for_clients(json@) ==> request is ClientList,
        asks_for_nothing(json@) ==> request is Nothing,
{
    lemma_values();
    if json@ is Object && asks_for_nothing(json@) {
        let members = json@->Object_0;
        let id = members["target_id"@]->Text_0;
        assert(!asks_to_pass_on(json@, id, members["payload"@]));
    }
}

/// What a value puts into the queue goes by its members too.
pub proof fn lemma_requests_are_routed(
    json: Json,
    message: Option<MessageType>,
    target_id: Seq<char>,
    payload: JsonModel,
)
    requires
        call_ensures(route_json, (json,), message),
    ensures
        asks_to_pass_on(json@, target_id, payload) ==> (message matches Some(
            MessageType::WsToTcp { target_id: id, data },
        ) && id@ == target_id && is_meant_by(data@, payload)),
        asks_for_clients(json@) ==> (message matches Some(
            MessageType::Control(ControlMessage::RequestClientList),
        )),
        asks_for_nothing(json@) ==> message is None,
{
    lemma_values();
    if json@ is Object && asks_for_nothing(json@) {
        let members = json@->Object_0;
        let id = members["target_id"@]->Text_0;
        assert(!asks_to_pass_on(json@, id, members["payload"@]));
    }
}

/// A payload gives what is meant by it, and what was read of it decides.
pub proof fn lemma_payloads_are_unwrapped(
    payload: Json,
    data: Json,
    read: Json,
    settled: Json,
    error: JsonError,
    kept: Json,
)
    requires
        call_ensures(unwrap_payload, (payload,), data),
        call_ensures(settle_payload, (payload, Ok(read)), settled),
        call_ensures(settle_payload, (payload, Err(error)), kept),
    ensures
        is_meant_by(data@, payload@),
        settled == read,
        kept == payload,
{
}

/// Whether a value is an object that has exactly these names.
pub open spec fn has_names(value: JsonModel, names: Set<Seq<char>>) -> bool {
    value matches JsonModel::Object(members) && members.dom() == names
}

/// Data for the WebSocket is wrapped whole.
pub proof fn lemma_data_is_rendered(data: Json, json: Json)
    requires
        call_ensures(render_message, (MessageType::TcpToWs(data),), json),
    ensures
        has_names(json@, set!["type"@, "payload"@]),
        has(json@, "type"@, JsonModel::Text("data"@)),
        has(json@, "payload"@, data@),
{
    lemma_names();
    assert(json@->Object_0.dom() =~= set!["type"@, "payload"@]);
}

/// That a client has connected is told with its whole name and its whole address.
pub proof fn lemma_an_arrival_is_rendered(client_id: String, addr: String, json: Json)
    requires
        call_ensures(
            render_message,
            (MessageType::Control(ControlMessage::TcpClientConnected { client_id, addr }),),
            json,
        ),
    ensures
        has_names(json@, set!["type"@, "action"@, "client_id"@, "addr"@]),
        has(json@, "type"@, JsonModel::Text("control"@)),
        has(json@, "action"@, JsonModel::Text("client_connected"@)),
        has(json@, "client_id"@, JsonModel::Text(client_id@)),
        has(json@, "addr"@, JsonModel::Text(addr@)),
{
    lemma_names();
    assert(json@->Object_0.dom() =~= set!["type"@, "action"@, "client_id"@, "addr"@]);
}

/// That a client has gone is told with its whole name.
pub proof fn lemma_a_departure_is_rendered(client_id: String, json: Json)
    requires
        call_ensures(
            render_message,
            (MessageType::Control(ControlMessage::TcpClientDisconnected { client_id }),),
            json,
        ),
    ensures
        has_names(json@, set!["type"@, "action"@, "client_id"@]),
        has(json@, "type"@, JsonModel::Text("control"@)),
        has(json@, "action"@, JsonModel::Text("client_disconnected"@)),
        has(json@, "client_id"@, JsonModel::Text(client_id@)),
{
    lemma_names();
    assert(json@->Object_0.dom() =~= set!["type"@, "action"@, "client_id"@]);
}

/// Whether a value tells of a client by its whole name, address and time.
pub open spec fn tells_of(value: JsonModel, info: TcpClientInfo) -> bool {
    &&& has_names(value, set!["client_id"@, "addr"@, "connected_at"@])
    &&& has(value, "client_id"@, JsonModel::Text(info.client_id@))
    &&& has(value, "addr"@, JsonModel::Text(info.addr@))
    &&& has(value, "connected_at"@, JsonModel::Text(info.connected_at@))
}

/// A list of clients is told entry by entry, in order.
pub proof fn lemma_a_list_is_rendered(list: Vec<TcpClientInfo>, json: Json)
    requires
        call_ensures(
            render_message,
            (MessageType::Control(ControlMessage::ClientList(list)),),
            json,
        ),
    ensures
        has_names(json@, set!["type"@, "action"@, "clients"@]),
        has(json@, "type"@, JsonModel::Text("control"@)),
        has(json@, "action"@, JsonModel::Text("client_list"@)),
        exists|entries: Seq<JsonModel>|
            {
                &&& #[trigger] has(json@, "clients"@, JsonModel::Array(entries))
                &&& entries.len() == list@.len()
                &&& forall|i: int| 0 <= i < list@.len() ==> tells_of(#[trigger] entries[i], list@[i])
            },
{
    lemma_names();
    reveal_strlit("client_id");
    reveal_strlit("addr");
    reveal_strlit("connected_at");
    assert("client_id"@.len() == 9 && "addr"@.len() == 4 && "connected_at"@.len() == 12);
    assert(json@->Object_0.dom() =~= set!["type"@, "action"@, "clients"@]);
    let entries = json@->Object_0["clients"@]->Array_0;
    assert forall|i: int| 0 <= i < list@.len() implies tells_of(
        #[trigger] entries[i],
        list@[i],
    ) by {
        assert(entries[i]->Object_0.dom() =~= set!["client_id"@, "addr"@, "connected_at"@]);
    }
    assert(has(json@, "clients"@, JsonModel::Array(entries)));
}

/// Of what the WebSocket is not meant to get, it is told only that it is unknown.
pub proof fn lemma_the_unknown_is_rendered(
    target_id: String,
    data: Json,
    unknown: Json,
    request: Json,
)
    requires
        call_ensures(render_message, (MessageType::WsToTcp { target_id, data },), unknown),
        call_ensures(
            render_message,
            (MessageType::Control(ControlMessage::RequestClientList),),
            request,
        ),
    ensures
        has_names(unknown@, set!["type"@]),
        has(unknown@, "type"@, JsonModel::Text("unknown"@)),
        has_names(request@, set!["type"@, "action"@]),
        has(request@, "type"@, JsonModel::Text("control"@)),
        has(request@, "action"@, JsonModel::Text("unknown"@)),
{
    lemma_names();
    assert(unknown@->Object_0.dom() =~= set!["type"@]);
    assert(request@->Object_0.dom() =~= set!["type"@, "action"@]);
}

/// Data is acknowledged with all of it.
pub proof fn lemma_data_is_acknowledged(data: Json, response: Json)
    requires
        call_ensures(process_data, (data,), response),
    ensures
        has_names(response@, set!["status"@, "message"@, "received_data"@]),
        has(response@, "status"@, JsonModel::Text("success"@)),
        has(response@, "message"@, JsonModel::Text("数据已接收"@)),
        has(response@, "received_data"@, data@),
{
    reveal_strlit("status");
    reveal_strlit("message");
    reveal_strlit("received_data");
    assert("status"@.len() == 6 && "message"@.len() == 7 && "received_data"@.len() == 13);
    assert(response@->Object_0.dom() =~= set!["status"@, "message"@, "received_data"@]);
}

/// Two messages that the WebSocket is sent alike are alike: neither data nor names nor
/// addresses are lost.
pub proof fn lemma_nothing_is_lost_in_rendering(
    a: Json,
    b: Json,
    a_json: Json,
    b_json: Json,
    a_id: String,
    a_addr: String,
    b_id: String,
    b_addr: String,
    a_arrival: Json,
    b_arrival: Json,
    a_departure: Json,
    b_departure: Json,
)
    requires
        call_ensures(render_message, (MessageType::TcpToWs(a),), a_json),
        call_ensures(render_message, (MessageType::TcpToWs(b),), b_json),
        call_ensures(
            render_message,
            (
                MessageType::Control(
                    ControlMessage::TcpClientConnected { client_id: a_id, addr: a_addr },
                ),
            ),
            a_arrival,
        ),
        call_ensures(
            render_message,
            (
                MessageType::Control(
                    ControlMessage::TcpClientConnected { client_id: b_id, addr: b_addr },
                ),
            ),
            b_arrival,
        ),
        call_ensures(
            render_message,
            (MessageType::Control(ControlMessage::TcpClientDisconnected { client_id: a_id }),),
            a_departure,
        ),
        call_ensures(
            render_message,
            (MessageType::Control(ControlMessage::TcpClientDisconnected { client_id: b_id }),),
            b_departure,
        ),
    ensures
        a_json@ == b_json@ ==> a@ == b@,
        a_arrival@ == b_arrival@ ==> a_id@ == b_id@ && a_addr@ == b_addr@,
        a_departure@ == b_departure@ ==> a_id@ == b_id@,
{
    lemma_data_is_rendered(a, a_json);
    lemma_data_is_rendered(b, b_json);
    lemma_an_arrival_is_rendered(a_id, a_addr, a_arrival);
    lemma_an_arrival_is_rendered(b_id, b_addr, b_arrival);
    lemma_a_departure_is_rendered(a_id, a_departure);
    lemma_a_departure_is_rendered(b_id, b_departure);
}

/// At first nobody is connected to the WebSocket server, and no connection was accepted.
pub proof fn lemma_the_server_begins_alone(server: WsServer)
    requires
        call_ensures(WsServer::new, (), server),
    ensures
        !server.connected,
        server.connection == 0,
{
}

/// Whoever connects takes the place of whoever was there, who is to be cut off, and has the
/// next number.
pub proof fn lemma_a_newcomer_replaces(server: &mut WsServer, action: WsServerAction)
    requires
        call_ensures(WsServer::run_websocket_server, (server, WsServerEvent::Accepted), action),
    ensures
        action == (WsServerAction::Handshake { close_old: old(server).connected }),
        !final(server).connected,
        final(server).connection != old(server).connection,
        old(server).connection < u64::MAX ==> final(server).connection == old(server).connection
            + 1,
        old(server).connection == u64::MAX ==> final(server).connection == 0,
{
}

/// When a handshake is done, the list of clients is asked for, and the connection is the one
/// that was accepted last.
pub proof fn lemma_a_handshake_connects(server: &mut WsServer, action: WsServerAction)
    requires
        call_ensures(WsServer::run_websocket_server, (server, WsServerEvent::HandshakeDone), action),
    ensures
        action matches WsServerAction::Install {
            request: MessageType::Control(ControlMessage::RequestClientList),
            connection,
        } && connection == old(server).connection,
        final(server).connected,
        final(server).connection == old(server).connection,
{
}

/// A message is sent as the text of the JSON that it is rendered as, while somebody is
/// connected, and dropped while nobody is.
pub proof fn lemma_messages_are_sent_while_connected(
    server: &mut WsServer,
    message: MessageType,
    json: Json,
    action: WsServerAction,
)
    requires
        call_ensures(render_message, (message,), json),
        call_ensures(
            WsServer::run_websocket_server,
            (server, WsServerEvent::Queued(message)),
            action,
        ),
    ensures
        if old(server).connected {
            action matches WsServerAction::Send(text) && text@ == written_text(json@)
        } else {
            action is Drop
        },
        final(server).connected == old(server).connected,
        final(server).connection == old(server).connection,
{
}

/// A failed handshake leaves nobody connected, a failure to send lets the connection go, and
/// nothing else changes anything.
pub proof fn lemma_failures_disconnect(
    server: &mut WsServer,
    event: WsServerEvent,
    action: WsServerAction,
)
    requires
        !(event is Accepted || event is HandshakeDone || event is Queued),
        call_ensures(WsServer::run_websocket_server, (server, event), action),
    ensures
        event is SendFailed ==> action is Release,
        !(event is SendFailed) ==> action is Nothing,
        final(server).connected == (old(server).connected && !(event is SendFailed
            || event is HandshakeFailed)),
        final(server).connection == old(server).connection,
{
}

} // verus!
