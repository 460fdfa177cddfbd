//! The WebSocket side: one connection at a time, what is sent on it, and what comes in
//! on it.

use vstd::prelude::*;
use crate::json::{same_text, Json, JsonError};
#[allow(unused_imports)]
use crate::json::{member_model, member_text_model, JsonModel};
use crate::message::{render_message, ControlMessage, MessageType};
#[allow(unused_imports)]
use crate::message::{message_json, ControlModel, MessageModel};
#[allow(unused_imports)]
use crate::serde_bridge::{parsed_text, reads_back, success, written_text};

verus! {

/// What the WebSocket asks for.
#[derive(Debug)]
pub enum WsRequest {
    /// Data for a TCP client.
    Data { target_id: String, payload: Json },
    /// The list of TCP clients.
    ClientList,
    /// Nothing that is understood.
    Nothing,
}

/// What the WebSocket asks for.
pub enum WsRequestModel {
    Data { target_id: Seq<char>, payload: JsonModel },
    ClientList,
    Nothing,
}

impl View for WsRequest {
    type V = WsRequestModel;

    open spec fn view(&self) -> WsRequestModel {
        match self {
            WsRequest::Data { target_id, payload } => {
                WsRequestModel::Data { target_id: target_id@, payload: payload@ }
            },
            WsRequest::ClientList => WsRequestModel::ClientList,
            WsRequest::Nothing => WsRequestModel::Nothing,
        }
    }
}

/// What a value asks for. Data needs a target, which is a text, and a payload.
pub open spec fn request_model(value: JsonModel) -> WsRequestModel {
    if member_text_model(value, "type"@) == Some("data"@) {
        match (member_text_model(value, "target_id"@), member_model(value, "payload"@)) {
            (Some(target_id), Some(payload)) => WsRequestModel::Data { target_id, payload },
            _ => WsRequestModel::Nothing,
        }
    } else if member_text_model(value, "type"@) == Some("control"@) && member_text_model(
        value,
        "action"@,
    ) == Some("request_client_list"@) {
        WsRequestModel::ClientList
    } else {
        WsRequestModel::Nothing
    }
}

/// What a payload stands for: a text that is JSON stands for what it says, and any
/// other payload for itself.
pub open spec fn payload_model(payload: JsonModel) -> JsonModel {
    match payload {
        JsonModel::Text(text) => match parsed_text(text) {
            Ok(value) => value,
            Err(_) => payload,
        },
        _ => payload,
    }
}

/// Whether a payload stands for a value: it is that value, unless the value is a text, or it
/// is the text that is written for the value.
pub open spec fn stands_for(payload: JsonModel, value: JsonModel) -> bool {
    (payload == value && !(value is Text)) || payload == JsonModel::Text(written_text(value))
}

/// The message that a value from the WebSocket puts into the queue, if any.
pub open spec fn routed(value: JsonModel) -> Option<MessageModel> {
    match request_model(value) {
        WsRequestModel::Data { target_id, payload } => Some(
            MessageModel::WsToTcp { target_id, data: payload_model(payload) },
        ),
        WsRequestModel::ClientList => Some(MessageModel::Control(ControlModel::RequestClientList)),
        WsRequestModel::Nothing => None,
    }
}

/// Whether a request is one for a value to be passed on to a client.
pub open spec fn carries(request: JsonModel, value: JsonModel) -> bool {
    request_model(request) matches WsRequestModel::Data { payload, .. } && stands_for(
        payload,
        value,
    )
}

/// The message that passes a value on to the client that a request names.
pub open spec fn delivery_of(request: JsonModel, value: JsonModel) -> MessageModel {
    MessageModel::WsToTcp { target_id: request_model(request)->target_id, data: value }
}

/// An optional message by what it says.
pub open spec fn message_option(message: Option<MessageType>) -> Option<MessageModel> {
    match message {
        Some(message) => Some(message@),
        None => None,
    }
}

/// Whether an optional text is the given one.
fn is_text(text: Option<&str>, expected: &str) -> (is: bool)
    ensures
        is == match text {
            Some(text) => text@ == expected@,
            None => false,
        },
{
    match text {
        Some(text) => same_text(text, expected),
        None => false,
    }
}

/// What a value from the WebSocket asks for.
pub fn read_request(json: Json) -> (request: WsRequest)
    ensures
        request@ == request_model(json@),
{
    if is_text(json.member_text("type"), "data") {
        let target_id: Option<String> = match json.member_text("target_id") {
            Some(id) => Some(id.to_owned()),
            None => None,
        };
        match (target_id, json.into_member("payload")) {
            (Some(target_id), Some(payload)) => WsRequest::Data { target_id, payload },
            _ => WsRequest::Nothing,
        }
    } else if is_text(json.member_text("type"), "control") && is_text(
        json.member_text("action"),
        "request_client_list",
    ) {
        WsRequest::ClientList
    } else {
        WsRequest::Nothing
    }
}

/// What a text payload stands for, given what reading it as JSON came to.
pub fn settle_payload(payload: Json, read: Result<Json, JsonError>) -> (data: Json)
    ensures
        data == match read {
            Ok(value) => value,
            Err(_) => payload,
        },
{
    match read {
        Ok(value) => value,
        Err(_) => payload,
    }
}

/// What a payload stands for. Where that is a value that reads back, that value comes out.
pub fn unwrap_payload(payload: Json) -> (data: Json)
    ensures
        data@ == payload_model(payload@),
        forall|value: JsonModel|
            #![trigger written_text(value)]
            reads_back(value) && stands_for(payload@, value) ==> data@ == value,
{
    let read: Option<Result<Json, JsonError>> = match payload.as_text() {
        Some(text) => Some(Json::from_text(text)),
        None => None,
    };
    match read {
        Some(read) => settle_payload(payload, read),
        None => payload,
    }
}

/// The message that a value from the WebSocket puts into the queue, if any. A value that
/// reads back is passed on alike as a payload and as the text of one.
pub fn route_json(json: Json) -> (message: Option<MessageType>)
    ensures
        message_option(message) == routed(json@),
        forall|value: JsonModel|
            #![trigger written_text(value)]
            reads_back(value) && carries(json@, value) ==> message_option(message) == Some(
                delivery_of(json@, value),
            ),
{
    match read_request(json) {
        WsRequest::Data { target_id, payload } => {
            let data = unwrap_payload(payload);
            Some(MessageType::WsToTcp { target_id, data })
        },
        WsRequest::ClientList => Some(MessageType::Control(ControlMessage::RequestClientList)),
        WsRequest::Nothing => None,
    }
}

/// What came in on the WebSocket.
#[derive(Debug)]
pub enum WsIncoming {
    /// A text message.
    Text(String),
    /// A message of another kind.
    Other,
    /// An error.
    Failed,
    /// Nothing more comes.
    Ended,
}

/// What is done with it.
#[derive(Debug)]
pub enum WsIncomingStep {
    /// Put this message into the queue to the TCP side.
    Enqueue(MessageType),
    /// The text is no JSON.
    Invalid(JsonError),
    /// Nothing.
    Skip,
    /// Stop reading.
    Stop,
}

/// Whether a step is what a text calls for.
pub open spec fn is_text_step(text: Seq<char>, step: WsIncomingStep) -> bool {
    match parsed_text(text) {
        Ok(value) => match routed(value) {
            Some(message) => step matches WsIncomingStep::Enqueue(queued) && queued@ == message,
            None => step is Skip,
        },
        Err(reason) => step matches WsIncomingStep::Invalid(error) && error.message@ == reason,
    }
}

/// Whether a value that reads back is passed on alike, whether it was the payload of the
/// request that a text is, or its own text was.
pub open spec fn passes_on_alike(text: Seq<char>, step: WsIncomingStep) -> bool {
    forall|value: JsonModel|
        #![trigger written_text(value)]
        reads_back(value) && parsed_text(text) is Ok && carries(parsed_text(text)->Ok_0, value)
            ==> (step matches WsIncomingStep::Enqueue(queued) && queued@ == delivery_of(
            parsed_text(text)->Ok_0,
            value,
        ))
}

/// Whether a step is what something that came in calls for.
pub open spec fn is_incoming_step(incoming: WsIncoming, step: WsIncomingStep) -> bool {
    match incoming {
        WsIncoming::Text(text) => is_text_step(text@, step) && passes_on_alike(text@, step),
        WsIncoming::Other => step is Skip,
        WsIncoming::Failed => step is Stop,
        WsIncoming::Ended => step is Stop,
    }
}

/// What is done with what came in on the WebSocket. A value that reads back gets into the
/// queue alike whether it was the payload of a request or its text was.
pub fn process_ws_messages(incoming: WsIncoming) -> (step: WsIncomingStep)
    ensures
        is_incoming_step(incoming, step),
{
    match incoming {
        WsIncoming::Text(text) => match Json::from_text(text.as_str()) {
            Ok(json) => match route_json(json) {
                Some(message) => WsIncomingStep::Enqueue(message),
                None => WsIncomingStep::Skip,
            },
            Err(error) => WsIncomingStep::Invalid(error),
        },
        WsIncoming::Other => WsIncomingStep::Skip,
        WsIncoming::Failed => WsIncomingStep::Stop,
        WsIncoming::Ended => WsIncomingStep::Stop,
    }
}

/// What is done with what came in on a connection, which may have been replaced by another:
/// nothing gets from a replaced connection into the queue, and no more is read from it.
pub fn process_if_current(current: bool, incoming: WsIncoming) -> (step: WsIncomingStep)
    ensures
        !current ==> step is Stop,
        current ==> is_incoming_step(incoming, step),
{
    if current {
        process_ws_messages(incoming)
    } else {
        WsIncomingStep::Stop
    }
}

/// What happens to the WebSocket server.
#[derive(Debug)]
pub enum WsServerEvent {
    /// Somebody connected.
    Accepted,
    /// Accepting a connection failed.
    AcceptFailed,
    /// The connection became a WebSocket.
    HandshakeDone,
    /// The connection did not become a WebSocket.
    HandshakeFailed,
    /// A message came out of the queue from the TCP side.
    Queued(MessageType),
    /// Nothing more comes out of the queue.
    QueueClosed,
    /// A text was sent.
    Sent,
    /// A text could not be sent.
    SendFailed,
}

/// What the WebSocket server does.
#[derive(Debug)]
pub enum WsServerAction {
    /// Close the connection there is, if one is to be closed, and begin the handshake on
    /// the new one.
    Handshake { close_old: bool },
    /// Put this message into the queue to the TCP side, begin to read from the new
    /// connection, which has this number, and keep it.
    Install { request: MessageType, connection: u64 },
    /// Send this text.
    Send(String),
    /// Drop the message: nobody is there to get it.
    Drop,
    /// Let the connection go.
    Release,
    /// Nothing.
    Nothing,
}

/// Whether a connection is there after an event.
pub open spec fn connected_after(connected: bool, event: WsServerEvent) -> bool {
    match event {
        WsServerEvent::HandshakeDone => true,
        WsServerEvent::Accepted => false,
        WsServerEvent::HandshakeFailed => false,
        WsServerEvent::SendFailed => false,
        _ => connected,
    }
}

/// The number of the latest connection after an event: each one that is accepted has the
/// next number.
pub open spec fn connection_after(connection: u64, event: WsServerEvent) -> u64 {
    if event is Accepted {
        ((connection + 1) % 0x1_0000_0000_0000_0000) as u64
    } else {
        connection
    }
}

/// Whether an action is the one that an event calls for.
pub open spec fn is_server_action(
    connected: bool,
    connection: u64,
    event: WsServerEvent,
    action: WsServerAction,
) -> bool {
    match event {
        WsServerEvent::Accepted => action == WsServerAction::Handshake { close_old: connected },
        WsServerEvent::HandshakeDone => action matches WsServerAction::Install {
            request,
            connection: number,
        } && request@ == MessageModel::Control(ControlModel::RequestClientList) && number
            == connection,
        WsServerEvent::Queued(message) => if connected {
            action matches WsServerAction::Send(text) && text@ == written_text(
                message_json(message@),
            )
        } else {
            action is Drop
        },
        WsServerEvent::SendFailed => action is Release,
        _ => action is Nothing,
    }
}

/// The WebSocket server: whether somebody is connected to it, and the number of the
/// connection that was accepted last.
#[derive(Debug)]
pub struct WsServer {
    pub connected: bool,
    pub connection: u64,
}

impl WsServer {
    /// Nobody is connected.
    pub fn new() -> (server: Self)
        ensures
            !server.connected,
            server.connection == 0,
    {
        WsServer { connected: false, connection: 0 }
    }

    /// What is done with what came in on the connection that has this number. Only the
    /// connection that was accepted last is listened to.
    pub fn receive(&self, connection: u64, incoming: WsIncoming) -> (step: WsIncomingStep)
        ensures
            connection != self.connection ==> step is Stop,
            connection == self.connection ==> is_incoming_step(incoming, step),
    {
        process_if_current(connection == self.connection, incoming)
    }

    /// One step of the WebSocket server. Whoever connects takes the place of who was
    /// there, even where the handshake then fails. The text that is sent for a message
    /// reads back as that message, where its JSON reads back at all.
    pub fn run_websocket_server(&mut self, event: WsServerEvent) -> (action: WsServerAction)
        ensures
            final(self).connected == connected_after(old(self).connected, event),
            final(self).connection == connection_after(old(self).connection, event),
            is_server_action(old(self).connected, old(self).connection, event, action),
            event matches WsServerEvent::Queued(message) ==> old(self).connected && reads_back(
                message_json(message@),
            ) ==> (action matches WsServerAction::Send(text) && parsed_text(text@) == success(
                message_json(message@),
            )),
    {
        match event {
            WsServerEvent::Accepted => {
                let close_old = self.connected;
                self.connected = false;
                self.connection = self.connection.wrapping_add(1);
                WsServerAction::Handshake { close_old }
            },
            WsServerEvent::AcceptFailed => WsServerAction::Nothing,
            WsServerEvent::HandshakeDone => {
                self.connected = true;
                WsServerAction::Install {
                    request: MessageType::Control(ControlMessage::RequestClientList),
                    connection: self.connection,
                }
            },
            WsServerEvent::HandshakeFailed => {
                self.connected = false;
                WsServerAction::Nothing
            },
            WsServerEvent::Queued(message) => {
                if self.connected {
                    let json = render_message(message);
                    match json.to_text() {
                        Ok(text) => WsServerAction::Send(text),
                        Err(_) => WsServerAction::Send(String::new()),
                    }
                } else {
                    WsServerAction::Drop
                }
            },
            WsServerEvent::QueueClosed => WsServerAction::Nothing,
            WsServerEvent::Sent => WsServerAction::Nothing,
            WsServerEvent::SendFailed => {
                self.connected = false;
                WsServerAction::Release
            },
        }
    }
}

} // verus!
