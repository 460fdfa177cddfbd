//! What the TCP side does with messages from the WebSocket side.

use vstd::prelude::*;
use crate::clients::{Delivery, TcpClientManager};
#[allow(unused_imports)]
use crate::clients::{is_listing, not_found_text, ClientsModel};
#[allow(unused_imports)]
use crate::json::{Json, JsonModel};
use crate::message::{ControlMessage, MessageType};
#[allow(unused_imports)]
use crate::message::{ControlModel, MessageModel};

verus! {

/// What is done with a message from the WebSocket side.
pub enum DispatchStep {
    /// Hand this value to its client.
    Deliver(Delivery),
    /// The client is not there; this says so.
    Undeliverable(String),
    /// Put this message into the queue to the WebSocket side.
    Reply(MessageType),
    /// Nothing.
    Skip,
    /// Stop: no more messages come.
    Stop,
}

/// What is done with a message from the WebSocket side.
pub enum DispatchModel {
    Deliver { client_id: Seq<char>, sender: tokio::sync::mpsc::Sender<Json>, data: JsonModel },
    Undeliverable(Seq<char>),
    ListClients,
    Skip,
}

/// What a message calls for, where these clients are connected.
pub open spec fn dispatch_model(clients: ClientsModel, message: MessageModel) -> DispatchModel {
    match message {
        MessageModel::WsToTcp { target_id, data } => if clients.contains_key(target_id) {
            DispatchModel::Deliver { client_id: target_id, sender: clients[target_id].sender, data }
        } else {
            DispatchModel::Undeliverable(not_found_text(target_id))
        },
        MessageModel::Control(ControlModel::RequestClientList) => DispatchModel::ListClients,
        _ => DispatchModel::Skip,
    }
}

/// Whether a message lists these clients.
pub open spec fn is_client_list(clients: ClientsModel, message: MessageModel) -> bool {
    message matches MessageModel::Control(ControlModel::ClientList(list)) && is_listing(
        clients,
        list,
    )
}

/// Whether a step is what a message calls for.
pub open spec fn is_dispatch_step(
    clients: ClientsModel,
    message: MessageModel,
    step: DispatchStep,
) -> bool {
    match dispatch_model(clients, message) {
        DispatchModel::Deliver { client_id, sender, data } => {
            &&& step matches DispatchStep::Deliver(delivery)
            &&& delivery.client_id@ == client_id
            &&& delivery.sender == sender
            &&& delivery.data@ == data
        },
        DispatchModel::Undeliverable(reason) => {
            &&& step matches DispatchStep::Undeliverable(text)
            &&& text@ == reason
        },
        DispatchModel::ListClients => {
            &&& step matches DispatchStep::Reply(reply)
            &&& is_client_list(clients, reply@)
        },
        DispatchModel::Skip => step is Skip,
    }
}

/// What is done with a message from the WebSocket side; `None` stands for the end of the
/// queue.
pub fn process_ws_to_tcp_messages(
    manager: &TcpClientManager,
    received: Option<MessageType>,
) -> (step: DispatchStep)
    requires
        manager.wf(),
    ensures
        match received {
            None => step is Stop,
            Some(message) => is_dispatch_step(manager@, message@, step),
        },
{
    match received {
        Some(message) => match message {
            MessageType::WsToTcp { target_id, data } => {
                match manager.send_to_client(target_id.as_str(), data) {
                    Ok(delivery) => DispatchStep::Deliver(delivery),
                    Err(text) => DispatchStep::Undeliverable(text),
                }
            },
            MessageType::Control(ControlMessage::RequestClientList) => {
                let list = manager.get_client_list();
                DispatchStep::Reply(MessageType::Control(ControlMessage::ClientList(list)))
            },
            _ => DispatchStep::Skip,
        },
        None => DispatchStep::Stop,
    }
}

} // verus!
