//! Which calls may be made: all but a few on everything, and those few on what other calls
//! leave behind.

use vstd::prelude::*;
#[allow(unused_imports)]
use crate::channel::{client_channel, MessageQueue};
#[allow(unused_imports)]
use crate::clients::{delivery_result, TcpClient, TcpClientManager};
#[allow(unused_imports)]
use crate::dispatch::process_ws_to_tcp_messages;
#[allow(unused_imports)]
use crate::frame::{
    body_step, read_from_tcp, read_within, receive_message, send_message, send_response, ReadEvent,
    ReceiveEvent, TcpError,
};
#[allow(unused_imports)]
use crate::json::{Json, JsonError};
#[allow(unused_imports)]
use crate::message::{process_data, render_message, MessageType};
#[allow(unused_imports)]
use crate::session::{enrich, open_session, SessionEvent, SessionStep, TcpSession};
#[allow(unused_imports)]
use crate::terminal::{line_step, read_step, receiver_step};
#[allow(unused_imports)]
use crate::websocket::{
    process_if_current, process_ws_messages, read_request, route_json, settle_payload,
    unwrap_payload, WsIncoming, WsServer, WsServerEvent,
};

verus! {

/// Any value may be read, written and taken apart.
pub proof fn lemma_any_value_is_handled(
    json: &Json,
    owned: Json,
    member: Json,
    name: &str,
    bytes: &[u8],
    message: MessageType,
)
    ensures
        call_requires(Json::from_bytes, (bytes,)),
        call_requires(Json::from_text, (name,)),
        call_requires(Json::to_text, (json,)),
        call_requires(Json::to_bytes, (json,)),
        call_requires(Json::reads_back, (json,)),
        call_requires(Json::as_text, (json,)),
        call_requires(Json::member, (json, name)),
        call_requires(Json::member_text, (json, name)),
        call_requires(Json::into_member, (owned, name)),
        call_requires(Json::set_member, (owned, name, member)),
        call_requires(render_message, (message,)),
        call_requires(process_data, (owned,)),
        call_requires(enrich, (owned, name, name, name)),
{
}

/// Whatever happens on a connection is handled.
pub proof fn lemma_any_event_is_handled(
    limit: usize,
    event: ReadEvent,
    received: ReceiveEvent,
    read: Result<Json, JsonError>,
    json: &Json,
    error: &TcpError,
    shown: Result<Json, TcpError>,
    line: &str,
    failure: Option<String>,
)
    ensures
        call_requires(read_within, (limit, event)),
        call_requires(read_from_tcp, (event,)),
        call_requires(receive_message, (received,)),
        call_requires(body_step, (read,)),
        call_requires(send_response, (json,)),
        call_requires(send_message, (json,)),
        call_requires(TcpError::message, (error,)),
        call_requires(line_step, (line,)),
        call_requires(read_step, (read,)),
        call_requires(receiver_step, (shown,)),
        call_requires(delivery_result, (line, failure)),
        call_requires(client_channel, ()),
        call_requires(MessageQueue::new, ()),
{
}

/// Whatever comes in on a WebSocket and whatever happens to its server is handled.
pub proof fn lemma_any_websocket_event_is_handled(
    server: &WsServer,
    changing: &mut WsServer,
    connection: u64,
    current: bool,
    incoming: WsIncoming,
    event: WsServerEvent,
    json: Json,
    read: Result<Json, JsonError>,
)
    ensures
        call_requires(process_ws_messages, (incoming,)),
        call_requires(process_if_current, (current, incoming)),
        call_requires(read_request, (json,)),
        call_requires(route_json, (json,)),
        call_requires(unwrap_payload, (json,)),
        call_requires(settle_payload, (json, read)),
        call_requires(WsServer::new, ()),
        call_requires(WsServer::receive, (server, connection, incoming)),
        call_requires(WsServer::run_websocket_server, (changing, event)),
{
}

/// The clients that are connected may be asked anything and changed in any way.
pub proof fn lemma_any_change_of_clients_is_handled(
    manager: &TcpClientManager,
    changing: &mut TcpClientManager,
    client: TcpClient,
    addr: String,
    sender: tokio::sync::mpsc::Sender<Json>,
    id: &str,
    data: Json,
    message: Option<MessageType>,
)
    requires
        manager.wf(),
        old(changing).wf(),
    ensures
        call_requires(TcpClientManager::new, ()),
        call_requires(TcpClientManager::get_client_list, (manager,)),
        call_requires(TcpClientManager::send_to_client, (manager, id, data)),
        call_requires(process_ws_to_tcp_messages, (manager, message)),
        call_requires(TcpClientManager::insert_client, (changing, client)),
        call_requires(TcpClientManager::add_client, (changing, addr, sender)),
        call_requires(TcpClientManager::remove_client, (changing, id)),
        call_requires(open_session, (changing, addr)),
{
}

/// Nothing that is done to the clients that are connected keeps anything from being done to
/// them next.
pub proof fn lemma_clients_stay_in_order(
    first: TcpClientManager,
    inserting: &mut TcpClientManager,
    client: TcpClient,
    adding: &mut TcpClientManager,
    addr: String,
    sender: tokio::sync::mpsc::Sender<Json>,
    name: String,
    removing: &mut TcpClientManager,
    id: &str,
    removed: bool,
    opening: &mut TcpClientManager,
    opened: (TcpSession, tokio::sync::mpsc::Receiver<Json>, MessageType),
    session: &mut TcpSession,
    serving: &mut TcpClientManager,
    event: SessionEvent,
    step: SessionStep,
)
    requires
        call_ensures(TcpClientManager::new, (), first),
        call_ensures(TcpClientManager::insert_client, (inserting, client), ()),
        call_ensures(TcpClientManager::add_client, (adding, addr, sender), name),
        call_ensures(TcpClientManager::remove_client, (removing, id), removed),
        call_ensures(open_session, (opening, addr), opened),
        call_ensures(TcpSession::handle_tcp_client, (session, serving, event), step),
    ensures
        first.wf(),
        final(inserting).wf(),
        final(adding).wf(),
        final(removing).wf(),
        final(opening).wf(),
        final(serving).wf(),
{
}

/// Whatever happens in a session that goes on is handled.
pub proof fn lemma_any_session_event_is_handled(
    session: &mut TcpSession,
    manager: &mut TcpClientManager,
    event: SessionEvent,
)
    requires
        old(session).open,
        old(manager).wf(),
    ensures
        call_requires(TcpSession::handle_tcp_client, (session, manager, event)),
{
}

} // verus!
