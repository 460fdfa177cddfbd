//! The messages that pass between the TCP side and the WebSocket side.

use vstd::prelude::*;
use crate::json::Json;
#[allow(unused_imports)]
use crate::json::{item_models, lemma_item_models, JsonModel};

verus! {

/// A message in one of the two queues.
#[derive(Debug)]
pub enum MessageType {
    /// Data on its way from a TCP client to the WebSocket.
    TcpToWs(Json),
    /// Data on its way from the WebSocket to a TCP client.
    WsToTcp { target_id: String, data: Json },
    /// A control message.
    Control(ControlMessage),
}

/// A control message.
#[derive(Debug)]
pub enum ControlMessage {
    /// A TCP client has connected.
    TcpClientConnected { client_id: String, addr: String },
    /// A TCP client has gone.
    TcpClientDisconnected { client_id: String },
    /// The WebSocket asks which TCP clients there are.
    RequestClientList,
    /// Which TCP clients there are.
    ClientList(Vec<TcpClientInfo>),
}

/// What the WebSocket is told of a TCP client.
#[derive(Debug, PartialEq)]
pub struct TcpClientInfo {
    pub client_id: String,
    /// The socket address of the client, as text.
    pub addr: String,
    /// When the client connected.
    pub connected_at: String,
}

/// What a message says.
pub enum MessageModel {
    TcpToWs(JsonModel),
    WsToTcp { target_id: Seq<char>, data: JsonModel },
    Control(ControlModel),
}

/// What a control message says.
pub enum ControlModel {
    TcpClientConnected { client_id: Seq<char>, addr: Seq<char> },
    TcpClientDisconnected { client_id: Seq<char> },
    RequestClientList,
    ClientList(Seq<InfoModel>),
}

/// What the WebSocket is told of a TCP client.
pub struct InfoModel {
    pub client_id: Seq<char>,
    pub addr: Seq<char>,
    pub connected_at: Seq<char>,
}

impl View for TcpClientInfo {
    type V = InfoModel;

    open spec fn view(&self) -> InfoModel {
        InfoModel {
            client_id: self.client_id@,
            addr: self.addr@,
            connected_at: self.connected_at@,
        }
    }
}

/// What each of several clients is told of, in order.
pub open spec fn info_models(clients: Seq<TcpClientInfo>) -> Seq<InfoModel> {
    Seq::new(clients.len(), |i: int| clients[i]@)
}

impl View for ControlMessage {
    type V = ControlModel;

    open spec fn view(&self) -> ControlModel {
        match self {
            ControlMessage::TcpClientConnected { client_id, addr } => {
                ControlModel::TcpClientConnected { client_id: client_id@, addr: addr@ }
            },
            ControlMessage::TcpClientDisconnected { client_id } => {
                ControlModel::TcpClientDisconnected { client_id: client_id@ }
            },
            ControlMessage::RequestClientList => ControlModel::RequestClientList,
            ControlMessage::ClientList(clients) => ControlModel::ClientList(info_models(clients@)),
        }
    }
}

impl View for MessageType {
    type V = MessageModel;

    open spec fn view(&self) -> MessageModel {
        match self {
            MessageType::TcpToWs(data) => MessageModel::TcpToWs(data@),
            MessageType::WsToTcp { target_id, data } => {
                MessageModel::WsToTcp { target_id: target_id@, data: data@ }
            },
            MessageType::Control(control) => MessageModel::Control(control@),
        }
    }
}

/// The entry of one client in a list of clients.
pub open spec fn info_json(info: InfoModel) -> JsonModel {
    JsonModel::Object(
        map![
            "client_id"@ => JsonModel::Text(info.client_id),
            "addr"@ => JsonModel::Text(info.addr),
            "connected_at"@ => JsonModel::Text(info.connected_at),
        ],
    )
}

/// The entries of a list of clients, in order.
pub open spec fn info_jsons(clients: Seq<InfoModel>) -> Seq<JsonModel> {
    Seq::new(clients.len(), |i: int| info_json(clients[i]))
}

/// The JSON that the WebSocket is sent for a control message.
pub open spec fn control_json(control: ControlModel) -> JsonModel {
    match control {
        ControlModel::TcpClientConnected { client_id, addr } => JsonModel::Object(
            map![
                "type"@ => JsonModel::Text("control"@),
                "action"@ => JsonModel::Text("client_connected"@),
                "client_id"@ => JsonModel::Text(client_id),
                "addr"@ => JsonModel::Text(addr),
            ],
        ),
        ControlModel::TcpClientDisconnected { client_id } => JsonModel::Object(
            map![
                "type"@ => JsonModel::Text("control"@),
                "action"@ => JsonModel::Text("client_disconnected"@),
                "client_id"@ => JsonModel::Text(client_id),
            ],
        ),
        ControlModel::ClientList(clients) => JsonModel::Object(
            map![
                "type"@ => JsonModel::Text("control"@),
                "action"@ => JsonModel::Text("client_list"@),
                "clients"@ => JsonModel::Array(info_jsons(clients)),
            ],
        ),
        ControlModel::RequestClientList => JsonModel::Object(
            map![
                "type"@ => JsonModel::Text("control"@),
                "action"@ => JsonModel::Text("unknown"@),
            ],
        ),
    }
}

/// The JSON that the WebSocket is sent for a message.
pub open spec fn message_json(message: MessageModel) -> JsonModel {
    match message {
        MessageModel::TcpToWs(data) => JsonModel::Object(
            map!["type"@ => JsonModel::Text("data"@), "payload"@ => data],
        ),
        MessageModel::Control(control) => control_json(control),
        MessageModel::WsToTcp { .. } => JsonModel::Object(
            map!["type"@ => JsonModel::Text("unknown"@)],
        ),
    }
}

/// The answer that acknowledges data.
pub open spec fn acknowledgement(data: JsonModel) -> JsonModel {
    JsonModel::Object(
        map![
            "status"@ => JsonModel::Text("success"@),
            "message"@ => JsonModel::Text("数据已接收"@),
            "received_data"@ => data,
        ],
    )
}

/// A text as JSON.
fn text(content: &str) -> (json: Json)
    ensures
        json@ == JsonModel::Text(content@),
{
    Json::Text(content.to_owned())
}

/// An object with one member.
fn object(name: &str, member: Json) -> (json: Json)
    ensures
        json@ == JsonModel::Object(map![name@ => member@]),
{
    let empty = Json::Object(Vec::new());
    assert(empty@ == JsonModel::Object(Map::empty()));
    empty.set_member(name, member)
}

/// The entry of one client in a list of clients.
fn render_info(info: TcpClientInfo) -> (json: Json)
    ensures
        json@ == info_json(info@),
{
    object("client_id", Json::Text(info.client_id)).set_member(
        "addr",
        Json::Text(info.addr),
    ).set_member("connected_at", Json::Text(info.connected_at))
}

/// The entries of a list of clients.
fn render_infos(clients: Vec<TcpClientInfo>) -> (json: Json)
    ensures
        json@ == JsonModel::Array(info_jsons(info_models(clients@))),
{
    let ghost all = clients@;
    let mut entries: Vec<Json> = Vec::new();
    for client in it: clients
        invariant
            it.seq() == all,
            entries@.len() == it.index(),
            forall|i: int|
                0 <= i < entries@.len() ==> (#[trigger] entries@[i])@ == info_json(all[i]@),
    {
        entries.push(render_info(client));
    }
    proof {
        lemma_item_models(entries@);
        assert(item_models(entries@) =~= info_jsons(info_models(all)));
    }
    Json::Array(entries)
}

/// The JSON that the WebSocket is sent for a control message.
fn render_control(control: ControlMessage) -> (json: Json)
    ensures
        json@ == control_json(control@),
{
    let head = object("type", text("control"));
    match control {
        ControlMessage::TcpClientConnected { client_id, addr } => head.set_member(
            "action",
            text("client_connected"),
        ).set_member("client_id", Json::Text(client_id)).set_member("addr", Json::Text(addr)),
        ControlMessage::TcpClientDisconnected { client_id } => head.set_member(
            "action",
            text("client_disconnected"),
        ).set_member("client_id", Json::Text(client_id)),
        ControlMessage::ClientList(clients) => head.set_member(
            "action",
            text("client_list"),
        ).set_member("clients", render_infos(clients)),
        ControlMessage::RequestClientList => head.set_member("action", text("unknown")),
    }
}

/// The JSON that the WebSocket is sent for a message.
pub fn render_message(message: MessageType) -> (json: Json)
    ensures
        json@ == message_json(message@),
{
    match message {
        MessageType::TcpToWs(data) => object("type", text("data")).set_member("payload", data),
        MessageType::Control(control) => render_control(control),
        MessageType::WsToTcp { .. } => object("type", text("unknown")),
    }
}

/// The answer that acknowledges data and holds it.
pub fn process_data(data: Json) -> (response: Json)
    ensures
        response@ == acknowledgement(data@),
{
    object("status", text("success")).set_member("message", text("数据已接收")).set_member(
        "received_data",
        data,
    )
}

} // verus!
