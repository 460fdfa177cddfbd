//! What holds of the bridge as a whole.

use vstd::prelude::*;
#[allow(unused_imports)]
use vstd::utf8::encode_utf8;
#[allow(unused_imports)]
use crate::clients::{info_of, not_found_text, ClientModel, ClientsModel};
#[allow(unused_imports)]
use crate::dispatch::{dispatch_model, is_client_list, DispatchModel};
#[allow(unused_imports)]
use crate::frame::{response_body, server_frame};
#[allow(unused_imports)]
use crate::json::{
    lemma_member_exact,
    member_model,
    member_text_model,
    with_member,
    JsonModel,
};
#[allow(unused_imports)]
use crate::message::{info_json, info_jsons, message_json, ControlModel, MessageModel};
#[allow(unused_imports)]
use crate::serde_bridge::{
    is_exact,
    parsed_text,
    reads_back,
    written_bytes,
    written_text,
    PARSER_DEPTH,
};
#[allow(unused_imports)]
use crate::session::enriched;
#[allow(unused_imports)]
use crate::websocket::{
    carries,
    is_incoming_step,
    payload_model,
    request_model,
    routed,
    WsIncoming,
    WsIncomingStep,
    WsRequestModel,
};

verus! {

/// The names of members are told apart.
pub(crate) proof fn lemma_names()
    ensures
        "type"@ != "payload"@,
        "type"@ != "action"@,
        "type"@ != "client_id"@,
        "type"@ != "addr"@,
        "type"@ != "clients"@,
        "type"@ != "target_id"@,
        "payload"@ != "target_id"@,
        "action"@ != "client_id"@,
        "action"@ != "addr"@,
        "action"@ != "clients"@,
        "client_id"@ != "addr"@,
        "client_id"@ != "source_addr"@,
        "client_id"@ != "timestamp"@,
        "source_addr"@ != "timestamp"@,
{
    reveal_strlit("type");
    reveal_strlit("payload");
    reveal_strlit("action");
    reveal_strlit("client_id");
    reveal_strlit("addr");
    reveal_strlit("clients");
    reveal_strlit("target_id");
    reveal_strlit("source_addr");
    reveal_strlit("timestamp");
    assert("action"@.len() == 6 && "addr"@.len() == 4);
    assert("payload"@[0] == 'p' && "clients"@[0] == 'c');
    assert("client_id"@[0] == 'c' && "target_id"@[1] == 'a' && "timestamp"@[0] == 't');
    assert("type"@[0] == 't' && "addr"@[0] == 'a');
}

/// The values of members are told apart.
pub(crate) proof fn lemma_values()
    ensures
        "data"@ != "control"@,
        "data"@ != "unknown"@,
        "control"@ != "unknown"@,
        "request_client_list"@ != "client_connected"@,
        "request_client_list"@ != "client_disconnected"@,
        "request_client_list"@ != "client_list"@,
        "request_client_list"@ != "unknown"@,
{
    reveal_strlit("data");
    reveal_strlit("control");
    reveal_strlit("unknown");
    reveal_strlit("request_client_list");
    reveal_strlit("client_connected");
    reveal_strlit("client_disconnected");
    reveal_strlit("client_list");
    assert("control"@[0] == 'c' && "unknown"@[0] == 'u');
    assert("request_client_list"@[0] == 'r' && "client_disconnected"@[0] == 'c');
}

/// Data that the WebSocket sends to a client goes to the queue of that client and of no
/// other; where nobody goes by that name, that is said.
pub proof fn lemma_data_goes_to_its_client(
    clients: ClientsModel,
    value: JsonModel,
    id: Seq<char>,
    payload: JsonModel,
)
    requires
        member_text_model(value, "type"@) == Some("data"@),
        member_text_model(value, "target_id"@) == Some(id),
        member_model(value, "payload"@) == Some(payload),
    ensures
        routed(value) is Some,
        dispatch_model(clients, routed(value)->Some_0) == if clients.contains_key(id) {
            DispatchModel::Deliver {
                client_id: id,
                sender: clients[id].sender,
                data: payload_model(payload),
            }
        } else {
            DispatchModel::Undeliverable(not_found_text(id))
        },
{
}

/// Only a complete data message or a request for the list of clients gets from the
/// WebSocket into the queue.
pub proof fn lemma_only_requests_are_routed(value: JsonModel)
    ensures
        routed(value) is Some ==> routed(value)->Some_0 is WsToTcp || routed(value)->Some_0
            == MessageModel::Control(ControlModel::RequestClientList),
        !(value is Object) ==> routed(value) is None,
        member_text_model(value, "type"@) is None ==> routed(value) is None,
        routed(value) matches Some(MessageModel::WsToTcp { .. }) ==> member_text_model(
            value,
            "target_id"@,
        ) is Some && member_model(value, "payload"@) is Some,
{
}

/// A payload that is a text but no JSON reaches the client as that text, without quotes;
/// one that is a text and JSON reaches it as the JSON that it says; any other payload
/// reaches it as JSON.
pub proof fn lemma_payload_on_the_wire(payload: JsonModel)
    ensures
        match payload {
            JsonModel::Text(text) => match parsed_text(text) {
                Ok(value) => response_body(payload_model(payload)) == response_body(value),
                Err(_) => response_body(payload_model(payload)) == encode_utf8(text),
            },
            _ => response_body(payload_model(payload)) == written_bytes(payload),
        },
{
}

/// A value that is no text and reads back reaches the queue alike as the payload of a
/// request and as the text of one: two requests that name the same client, one with the
/// value and one with its text, put the same message into the queue.
pub proof fn lemma_quoted_payload_is_passed_on_alike(
    plain: String,
    quoted: String,
    client_id: Seq<char>,
    value: JsonModel,
    plain_step: WsIncomingStep,
    quoted_step: WsIncomingStep,
)
    requires
        !(value is Text),
        reads_back(value),
        parsed_text(plain@) is Ok,
        request_model(parsed_text(plain@)->Ok_0) == (WsRequestModel::Data {
            target_id: client_id,
            payload: value,
        }),
        parsed_text(quoted@) is Ok,
        request_model(parsed_text(quoted@)->Ok_0) == (WsRequestModel::Data {
            target_id: client_id,
            payload: JsonModel::Text(written_text(value)),
        }),
        is_incoming_step(WsIncoming::Text(plain), plain_step),
        is_incoming_step(WsIncoming::Text(quoted), quoted_step),
    ensures
        plain_step matches WsIncomingStep::Enqueue(message) && message@ == (MessageModel::WsToTcp {
            target_id: client_id,
            data: value,
        }),
        quoted_step matches WsIncomingStep::Enqueue(message) && message@ == (
        MessageModel::WsToTcp { target_id: client_id, data: value }),
{
    assert(carries(parsed_text(plain@)->Ok_0, value));
    assert(carries(parsed_text(quoted@)->Ok_0, value));
}

/// A text that was written for a value, and the value itself, unless that is a text, are the
/// same on the wire: sent to a client, they are the same bytes in the same frame.
pub proof fn lemma_quoted_value_on_the_wire(value: JsonModel)
    requires
        !(value is Text),
    ensures
        response_body(JsonModel::Text(written_text(value))) == response_body(value),
        server_frame(response_body(JsonModel::Text(written_text(value)))) == server_frame(
            written_bytes(value),
        ),
{
}

/// A member that is a text keeps a value exact.
proof fn lemma_with_text_exact(
    value: JsonModel,
    name: Seq<char>,
    text: Seq<char>,
    depth: nat,
)
    requires
        is_exact(value, depth),
    ensures
        is_exact(with_member(value, name, JsonModel::Text(text)), depth),
{
    if value is Object {
        let members = value->Object_0;
        let more = members.insert(name, JsonModel::Text(text));
        assert(value == JsonModel::Object(members));
        assert(depth > 0 && members.dom().finite());
        let inner = (depth - 1) as nat;
        assert forall|key: Seq<char>| more.contains_key(key) implies is_exact(
            #[trigger] more[key],
            inner,
        ) by {
            if key != name {
                lemma_member_exact(members, depth, key);
            }
        }
    }
}

/// What the WebSocket is sent reads back, where the data in it is nested one level less deep
/// than the parser goes and holds no floating-point number. What was added to the data,
/// and control messages, always read back.
pub proof fn lemma_message_reads_back(
    message: MessageModel,
    data: JsonModel,
    client_id: Seq<char>,
    addr: Seq<char>,
    timestamp: Seq<char>,
)
    requires
        message matches MessageModel::TcpToWs(sent) ==> sent == enriched(
            data,
            client_id,
            addr,
            timestamp,
        ) && is_exact(data, (PARSER_DEPTH - 1) as nat),
    ensures
        reads_back(message_json(message)),
{
    lemma_names();
    let depth = (PARSER_DEPTH - 1) as nat;
    match message {
        MessageModel::TcpToWs(_) => {
            let one = with_member(data, "client_id"@, JsonModel::Text(client_id));
            let two = with_member(one, "source_addr"@, JsonModel::Text(addr));
            lemma_with_text_exact(data, "client_id"@, client_id, depth);
            lemma_with_text_exact(one, "source_addr"@, addr, depth);
            lemma_with_text_exact(two, "timestamp"@, timestamp, depth);
        },
        MessageModel::Control(ControlModel::ClientList(list)) => {
            let entries = info_jsons(list);
            assert forall|i: int| 0 <= i < entries.len() implies is_exact(
                #[trigger] entries[i],
                (depth - 1) as nat,
            ) by {
                let members = entries[i]->Object_0;
                assert forall|name: Seq<char>| members.contains_key(name) implies is_exact(
                    #[trigger] members[name],
                    (depth - 2) as nat,
                ) by {}
                assert(members.dom().finite());
            }
            assert(is_exact(JsonModel::Array(entries), depth));
        },
        _ => {},
    }
    let members = message_json(message)->Object_0;
    assert(members.dom().finite());
    assert forall|name: Seq<char>| members.contains_key(name) implies is_exact(
        #[trigger] members[name],
        depth,
    ) by {}
}

/// Data from a client that is an object reaches the WebSocket with its members and with
/// where it came from and when; what the client itself said under those three names gives
/// way.
pub proof fn lemma_enriched_object(
    members: Map<Seq<char>, JsonModel>,
    client_id: Seq<char>,
    addr: Seq<char>,
    timestamp: Seq<char>,
)
    ensures
        ({
            let data = enriched(JsonModel::Object(members), client_id, addr, timestamp);
            &&& data is Object
            &&& member_text_model(data, "client_id"@) == Some(client_id)
            &&& member_text_model(data, "source_addr"@) == Some(addr)
            &&& member_text_model(data, "timestamp"@) == Some(timestamp)
            &&& forall|name: Seq<char>|
                name != "client_id"@ && name != "source_addr"@ && name != "timestamp"@ ==> (
                #[trigger] member_model(data, name)) == member_model(
                    JsonModel::Object(members),
                    name,
                )
        }),
{
    lemma_names();
}

/// Data from a client that is no object reaches the WebSocket as it is.
pub proof fn lemma_enriched_other(
    data: JsonModel,
    client_id: Seq<char>,
    addr: Seq<char>,
    timestamp: Seq<char>,
)
    requires
        !(data is Object),
    ensures
        enriched(data, client_id, addr, timestamp) == data,
{
}

/// Everything that the WebSocket is sent is an object whose type says what kind of message
/// it is, and data comes through as its payload.
pub proof fn lemma_message_types(message: MessageModel)
    ensures
        message_json(message) is Object,
        member_text_model(message_json(message), "type"@) == Some(
            match message {
                MessageModel::TcpToWs(_) => "data"@,
                MessageModel::Control(_) => "control"@,
                MessageModel::WsToTcp { .. } => "unknown"@,
            },
        ),
        message matches MessageModel::TcpToWs(data) ==> member_model(
            message_json(message),
            "payload"@,
        ) == Some(data),
{
    lemma_names();
}

/// Nothing that the WebSocket is sent is a request: sent back as it is, it puts nothing
/// into the queue.
pub proof fn lemma_no_echo(message: MessageModel)
    ensures
        routed(message_json(message)) is None,
{
    lemma_names();
    lemma_values();
    lemma_message_types(message);
}

/// A request for the list of clients is answered with one entry for each client, by name,
/// address and time.
pub proof fn lemma_client_list_is_complete(
    clients: ClientsModel,
    reply: MessageModel,
    id: Seq<char>,
)
    requires
        is_client_list(clients, reply),
        clients.contains_key(id),
    ensures
        dispatch_model(clients, MessageModel::Control(ControlModel::RequestClientList))
            == DispatchModel::ListClients,
        member_text_model(message_json(reply), "action"@) == Some("client_list"@),
        member_model(message_json(reply), "clients"@) matches Some(JsonModel::Array(entries))
            && entries.len() == clients.len() && entries.contains(
            info_json(info_of(clients[id])),
        ),
{
    lemma_names();
    let list = reply->Control_0->ClientList_0;
    let i = choose|i: int| 0 <= i < list.len() && (#[trigger] list[i]).client_id == id;
    assert(info_jsons(list)[i] == info_json(info_of(clients[id])));
}

/// From a client's arrival on, data for it goes to its queue, and from its departure on to
/// nobody. Arrival and departure change nothing for the others.
pub proof fn lemma_arrival_and_departure(
    clients: ClientsModel,
    id: Seq<char>,
    client: ClientModel,
    other: Seq<char>,
    data: JsonModel,
)
    requires
        other != id,
    ensures
        dispatch_model(clients.insert(id, client), MessageModel::WsToTcp { target_id: id, data })
            == (DispatchModel::Deliver { client_id: id, sender: client.sender, data }),
        dispatch_model(clients.remove(id), MessageModel::WsToTcp { target_id: id, data })
            == DispatchModel::Undeliverable(not_found_text(id)),
        dispatch_model(
            clients.insert(id, client),
            MessageModel::WsToTcp { target_id: other, data },
        ) == dispatch_model(clients, MessageModel::WsToTcp { target_id: other, data }),
        dispatch_model(clients.remove(id), MessageModel::WsToTcp { target_id: other, data })
            == dispatch_model(clients, MessageModel::WsToTcp { target_id: other, data }),
        clients.insert(id, client).remove(id) == clients.remove(id),
        !clients.contains_key(id) ==> clients.insert(id, client).remove(id) == clients,
        clients.remove(id).remove(id) == clients.remove(id),
{
    assert(clients.insert(id, client).remove(id) =~= clients.remove(id));
    assert(clients.remove(id).remove(id) =~= clients.remove(id));
    if !clients.contains_key(id) {
        assert(clients.remove(id) =~= clients);
    }
}

} // verus!
