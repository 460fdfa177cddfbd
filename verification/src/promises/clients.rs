//! The TCP clients that are connected, their queues, and what the TCP side does with
//! messages from the WebSocket side.

use vstd::prelude::*;
#[allow(unused_imports)]
use crate::ambient::{is_rfc3339, is_uuid_v4};
#[allow(unused_imports)]
use crate::channel::{
    client_capacity, client_channel, client_source, queue_capacity, queue_source, MessageQueue,
};
#[allow(unused_imports)]
use crate::clients::{delivery_result, ClientModel, Delivery, TcpClient, TcpClientManager};
#[allow(unused_imports)]
use crate::dispatch::{process_ws_to_tcp_messages, DispatchStep};
#[allow(unused_imports)]
use crate::json::Json;
#[allow(unused_imports)]
use crate::message::{info_models, ControlMessage, MessageType, TcpClientInfo};

verus! {

/// At first nobody is connected.
pub proof fn lemma_nobody_is_there_at_first(manager: TcpClientManager, id: Seq<char>)
    requires
        call_ensures(TcpClientManager::new, (), manager),
    ensures
        !manager@.contains_key(id),
{
}

/// A client that is taken in is there under its name with all that is known of it. Whoever
/// goes by another name stays, and nobody else comes in.
pub proof fn lemma_a_client_is_taken_in(
    manager: &mut TcpClientManager,
    client: TcpClient,
    other: Seq<char>,
)
    requires
        call_ensures(TcpClientManager::insert_client, (manager, client), ()),
    ensures
        final(manager)@.contains_key(client.client_id@),
        final(manager)@[client.client_id@].client_id == client.client_id@,
        final(manager)@[client.client_id@].addr == client.addr@,
        final(manager)@[client.client_id@].sender == client.sender,
        final(manager)@[client.client_id@].connected_at == client.connected_at@,
        other != client.client_id@ ==> {
            &&& final(manager)@.contains_key(other) == old(manager)@.contains_key(other)
            &&& final(manager)@[other] == old(manager)@[other]
        },
{
}

/// A client that is added is there under the random name that is given out, with its address,
/// its queue and a time. Whoever goes by another name stays.
pub proof fn lemma_a_client_is_added(
    manager: &mut TcpClientManager,
    addr: String,
    sender: tokio::sync::mpsc::Sender<Json>,
    id: String,
    other: Seq<char>,
)
    requires
        call_ensures(TcpClientManager::add_client, (manager, addr, sender), id),
    ensures
        is_uuid_v4(id@),
        final(manager)@.contains_key(id@),
        final(manager)@[id@].client_id == id@,
        final(manager)@[id@].addr == addr@,
        final(manager)@[id@].sender == sender,
        is_rfc3339(final(manager)@[id@].connected_at),
        other != id@ ==> {
            &&& final(manager)@.contains_key(other) == old(manager)@.contains_key(other)
            &&& final(manager)@[other] == old(manager)@[other]
        },
{
}

/// A client that is let go is not there any more, and it is said whether it was. Whoever goes
/// by another name stays.
pub proof fn lemma_a_client_is_let_go(
    manager: &mut TcpClientManager,
    id: &str,
    removed: bool,
    other: Seq<char>,
)
    requires
        call_ensures(TcpClientManager::remove_client, (manager, id), removed),
    ensures
        removed == old(manager)@.contains_key(id@),
        !final(manager)@.contains_key(id@),
        other != id@ ==> {
            &&& final(manager)@.contains_key(other) == old(manager)@.contains_key(other)
            &&& old(manager)@.contains_key(other) ==> final(manager)@[other] == old(manager)@[other]
        },
{
}

/// Whether a list has one entry for each client that is there, with its name, its address
/// and its time, and no other entry.
pub open spec fn lists_everybody(
    clients: Map<Seq<char>, ClientModel>,
    list: Seq<TcpClientInfo>,
) -> bool {
    &&& forall|i: int|
        0 <= i < list.len() ==> {
            let entry = #[trigger] list[i];
            &&& clients.contains_key(entry.client_id@)
            &&& clients[entry.client_id@].addr == entry.addr@
            &&& clients[entry.client_id@].connected_at == entry.connected_at@
        }
    &&& forall|i: int, j: int|
        0 <= i < j < list.len() ==> (#[trigger] list[i]).client_id@ != (
        #[trigger] list[j]).client_id@
    &&& forall|id: Seq<char>| #[trigger]
        clients.contains_key(id) ==> exists|i: int|
            0 <= i < list.len() && (#[trigger] list[i]).client_id@ == id
}

/// The list of clients has one entry for each client that is there.
pub proof fn lemma_everybody_is_listed(manager: &TcpClientManager, list: Vec<TcpClientInfo>)
    requires
        call_ensures(TcpClientManager::get_client_list, (manager,), list),
    ensures
        lists_everybody(manager@, list@),
        list@.len() == manager@.len(),
{
    lemma_listed_by_field(manager@, list@);
}

/// A list that tells of every client once, by its fields.
proof fn lemma_listed_by_field(clients: Map<Seq<char>, ClientModel>, list: Seq<TcpClientInfo>)
    requires
        crate::clients::is_listing(clients, info_models(list)),
    ensures
        lists_everybody(clients, list),
        list.len() == clients.len(),
{
    let models = info_models(list);
    assert forall|i: int| 0 <= i < list.len() implies {
        let entry = #[trigger] list[i];
        &&& clients.contains_key(entry.client_id@)
        &&& clients[entry.client_id@].addr == entry.addr@
        &&& clients[entry.client_id@].connected_at == entry.connected_at@
    } by {
        assert(models[i] == list[i]@);
    }
    assert forall|i: int, j: int| 0 <= i < j < list.len() implies (#[trigger] list[i]).client_id@
        != (#[trigger] list[j]).client_id@ by {
        assert(models[i] == list[i]@ && models[j] == list[j]@);
    }
    assert forall|id: Seq<char>| #[trigger] clients.contains_key(id) implies exists|i: int|
        0 <= i < list.len() && (#[trigger] list[i]).client_id@ == id by {
        let i = choose|i: int| 0 <= i < models.len() && (#[trigger] models[i]).client_id == id;
        assert(list[i].client_id@ == id);
    }
}

/// Data for a client that is there goes, as it is, into the queue of that client. Where
/// nobody goes by the name, that is said, with the name.
pub proof fn lemma_data_finds_its_client(
    manager: &TcpClientManager,
    id: &str,
    data: Json,
    found: Result<Delivery, String>,
)
    requires
        call_ensures(TcpClientManager::send_to_client, (manager, id, data), found),
    ensures
        if manager@.contains_key(id@) {
            found matches Ok(delivery) && delivery.client_id@ == id@ && delivery.sender
                == manager@[id@].sender && delivery.data == data
        } else {
            found matches Err(text) && text@ == "Client "@ + id@ + " not found"@
        },
{
}

/// What a call of `send_to_client` finds is what was put there: the client that was taken in
/// last under that name, until it is let go.
pub proof fn lemma_a_client_is_found_until_it_goes(
    arriving: &mut TcpClientManager,
    client: TcpClient,
    present: &TcpClientManager,
    leaving: &mut TcpClientManager,
    id: &str,
    removed: bool,
    gone: &TcpClientManager,
    data: Json,
    found: Result<Delivery, String>,
    missed: Result<Delivery, String>,
)
    requires
        id@ == client.client_id@,
        call_ensures(TcpClientManager::insert_client, (arriving, client), ()),
        present@ == final(arriving)@,
        call_ensures(TcpClientManager::send_to_client, (present, id, data), found),
        old(leaving)@ == present@,
        call_ensures(TcpClientManager::remove_client, (leaving, id), removed),
        gone@ == final(leaving)@,
        call_ensures(TcpClientManager::send_to_client, (gone, id, data), missed),
    ensures
        found matches Ok(delivery) && delivery.sender == client.sender && delivery.data == data,
        removed,
        missed is Err,
{
}

/// A delivery that went well is one; of one that did not, it is said for whom and why.
pub proof fn lemma_a_delivery_is_judged(
    id: &str,
    failure: Option<String>,
    result: Result<(), String>,
)
    requires
        call_ensures(delivery_result, (id, failure), result),
    ensures
        match failure {
            None => result is Ok,
            Some(reason) => result matches Err(text) && text@
                == "Failed to send message to client "@ + id@ + ": "@ + reason@,
        },
{
}

/// Each of the two queues between the sides holds 100 messages, and each receiving end takes
/// from the sending end of its own direction.
pub proof fn lemma_the_queues_hold_their_messages(queue: MessageQueue)
    requires
        call_ensures(MessageQueue::new, (), queue),
    ensures
        queue_capacity(queue.tcp_to_ws_sender) == 100,
        queue_capacity(queue.ws_to_tcp_sender) == 100,
        queue_source(queue.tcp_to_ws_receiver) == queue.tcp_to_ws_sender,
        queue_source(queue.ws_to_tcp_receiver) == queue.ws_to_tcp_sender,
{
}

/// The queue of a client holds 32 values, and its two ends belong together.
pub proof fn lemma_the_queue_of_a_client_holds_its_values(
    ends: (tokio::sync::mpsc::Sender<Json>, tokio::sync::mpsc::Receiver<Json>),
)
    requires
        call_ensures(client_channel, (), ends),
    ensures
        client_capacity(ends.0) == 32,
        client_source(ends.1) == ends.0,
{
}

/// Data from the WebSocket side is handed, as it is, to the client that it names and into the
/// queue of that client; where nobody goes by the name, that is said and nothing is
/// handed over.
pub proof fn lemma_data_is_dispatched(
    manager: &TcpClientManager,
    target_id: String,
    data: Json,
    step: DispatchStep,
)
    requires
        call_ensures(
            process_ws_to_tcp_messages,
            (manager, Some(MessageType::WsToTcp { target_id, data })),
            step,
        ),
    ensures
        if manager@.contains_key(target_id@) {
            step matches DispatchStep::Deliver(delivery) && delivery.client_id@ == target_id@
                && delivery.sender == manager@[target_id@].sender && delivery.data@ == data@
        } else {
            step matches DispatchStep::Undeliverable(text) && text@ == "Client "@ + target_id@
                + " not found"@
        },
{
}

/// A request for the list of clients is answered with a list that has one entry for each
/// client that is there, with its name, its address and its time.
pub proof fn lemma_a_request_is_answered_with_everybody(
    manager: &TcpClientManager,
    step: DispatchStep,
)
    requires
        call_ensures(
            process_ws_to_tcp_messages,
            (manager, Some(MessageType::Control(ControlMessage::RequestClientList))),
            step,
        ),
    ensures
        step matches DispatchStep::Reply(MessageType::Control(ControlMessage::ClientList(list)))
            && lists_everybody(manager@, list@) && list@.len() == manager@.len(),
{
    let list = step->Reply_0->Control_0->ClientList_0;
    lemma_listed_by_field(manager@, list@);
}

/// Nothing is done with any other message, and the end of the queue is the end of the work.
pub proof fn lemma_other_messages_are_skipped(
    manager: &TcpClientManager,
    message: MessageType,
    step: DispatchStep,
    last: DispatchStep,
)
    requires
        call_ensures(process_ws_to_tcp_messages, (manager, Some(message)), step),
        call_ensures(process_ws_to_tcp_messages, (manager, None), last),
    ensures
        match message {
            MessageType::TcpToWs(_) => step is Skip,
            MessageType::Control(ControlMessage::TcpClientConnected { .. }) => step is Skip,
            MessageType::Control(ControlMessage::TcpClientDisconnected { .. }) => step is Skip,
            MessageType::Control(ControlMessage::ClientList(_)) => step is Skip,
            _ => !(step is Skip || step is Stop),
        },
        last is Stop,
{
}

/// The name of a client is 36 characters long: hyphens in four places, and digits of base
/// sixteen in lower case in all others, of which two say what kind of name it is.
pub proof fn lemma_names_are_uuids(id: Seq<char>, i: int)
    requires
        is_uuid_v4(id),
        0 <= i < id.len(),
    ensures
        id.len() == 36,
        i == 8 || i == 13 || i == 18 || i == 23 <==> id[i] == '-',
        id[i] == '-' || '0' <= id[i] <= '9' || 'a' <= id[i] <= 'f',
        id[14] == '4',
        id[19] == '8' || id[19] == '9' || id[19] == 'a' || id[19] == 'b',
{
    assert(id[i] == id[i]);
}

/// A time in a year of four digits has the date, the time of day and the offset in their
/// places, and nothing but digits of a fraction of a second between.
pub proof fn lemma_times_are_rfc3339(time: Seq<char>, i: int)
    requires
        is_rfc3339(time),
        time[0] != '+',
        time[0] != '-',
    ensures
        time.len() == 25 || time.len() == 29 || time.len() == 32 || time.len() == 35,
        time[4] == '-' && time[7] == '-' && time[10] == 'T' && time[13] == ':' && time[16] == ':',
        time.len() > 25 ==> time[19] == '.',
        time[time.len() - 6] == '+' || time[time.len() - 6] == '-',
        time[time.len() - 3] == ':',
        0 <= i < time.len() && i != 4 && i != 7 && i != 10 && i != 13 && i != 16 && i != 19 && i
            != time.len() - 6 && i != time.len() - 3 ==> '0' <= time[i] <= '9',
{
    let t = choose|t: int| crate::ambient::is_rfc3339_at(time, t);
    assert(crate::ambient::is_rfc3339_at(time, t));
    assert(t == 10);
}

} // verus!
