//! What holds of whole runs of the bridge: of everything that a part of it does from its
//! beginning on, event after event.

use vstd::prelude::*;
#[allow(unused_imports)]
use crate::ambient::is_rfc3339;
#[allow(unused_imports)]
use crate::clients::{ClientModel, ClientsModel};
#[allow(unused_imports)]
use crate::dispatch::{is_dispatch_step, DispatchStep};
#[allow(unused_imports)]
use crate::frame::{
    client_body,
    client_frame,
    lemma_client_reads_its_frame,
    lemma_server_reads_its_frame,
    response_body,
    server_body,
    server_frame,
    CLIENT_BODY_LIMIT,
    PREFIX_LEN,
    SERVER_BODY_LIMIT,
};
#[allow(unused_imports)]
use crate::json::{Json, JsonModel};
#[allow(unused_imports)]
use crate::message::{message_json, ControlModel, MessageModel};
#[allow(unused_imports)]
use crate::serde_bridge::written_text;
#[allow(unused_imports)]
use crate::session::{
    arrival,
    departure,
    ends,
    event_messages,
    has_ended,
    is_session_step,
    lemma_session_log,
    session_log,
    step_messages,
    tells,
    SessionEvent,
    SessionStep,
};
#[allow(unused_imports)]
use crate::websocket::{
    connected_after,
    connection_after,
    is_server_action,
    WsServerAction,
    WsServerEvent,
};

verus! {

/// Whether somebody is connected to the WebSocket server after these events.
pub open spec fn connected_after_all(events: Seq<WsServerEvent>) -> bool
    decreases events.len(),
{
    if events.len() == 0 {
        false
    } else {
        connected_after(connected_after_all(events.drop_last()), events.last())
    }
}

/// Whether an event parts the WebSocket server from whoever is connected.
pub open spec fn parts(event: WsServerEvent) -> bool {
    event is Accepted || event is HandshakeFailed || event is SendFailed
}

/// Whether the handshake at `i` is the last thing that made or ended a connection.
pub open spec fn lasts_from(events: Seq<WsServerEvent>, i: int) -> bool {
    &&& 0 <= i < events.len()
    &&& events[i] is HandshakeDone
    &&& forall|j: int| i < j < events.len() ==> !parts(#[trigger] events[j])
}

/// Somebody is connected if and only if a handshake was done after which nobody else
/// connected, no handshake failed and nothing failed to be sent.
pub proof fn lemma_one_connection(events: Seq<WsServerEvent>)
    ensures
        connected_after_all(events) <==> exists|i: int| lasts_from(events, i),
    decreases events.len(),
{
    if events.len() > 0 {
        let front = events.drop_last();
        let n = front.len() as int;
        lemma_one_connection(front);
        if connected_after_all(events) {
            if events.last() is HandshakeDone {
                assert(lasts_from(events, n));
            } else {
                let i = choose|i: int| lasts_from(front, i);
                assert forall|j: int| i < j < events.len() implies !parts(#[trigger] events[j]) by {
                    if j < n {
                        assert(front[j] == events[j]);
                    }
                }
                assert(lasts_from(events, i));
            }
        }
        if exists|i: int| lasts_from(events, i) {
            let i = choose|i: int| lasts_from(events, i);
            if i < n {
                assert(!parts(events[n]));
                assert(lasts_from(front, i)) by {
                    assert forall|j: int| i < j < front.len() implies !parts(
                        #[trigger] front[j],
                    ) by {
                        assert(front[j] == events[j]);
                    }
                }
            }
        }
    }
}

/// The number of the latest connection after these events, where it was `first` before.
pub open spec fn connection_after_all(first: u64, events: Seq<WsServerEvent>) -> u64
    decreases events.len(),
{
    if events.len() == 0 {
        first
    } else {
        connection_after(connection_after_all(first, events.drop_last()), events.last())
    }
}

/// How many connections were accepted.
pub open spec fn accepted(events: Seq<WsServerEvent>) -> nat
    decreases events.len(),
{
    if events.len() == 0 {
        0
    } else {
        accepted(events.drop_last()) + if events.last() is Accepted {
            1nat
        } else {
            0nat
        }
    }
}

/// Connections are numbered as they are accepted.
proof fn lemma_connections_are_counted(first: u64, events: Seq<WsServerEvent>)
    ensures
        connection_after_all(first, events) == (first + accepted(events))
            % 0x1_0000_0000_0000_0000,
    decreases events.len(),
{
    if events.len() > 0 {
        lemma_connections_are_counted(first, events.drop_last());
    }
}

/// From the moment that another connection is accepted, a connection is not the current one
/// any more, so that nothing that comes in on it is passed on. As long as the numbers do
/// not run out, it never becomes the current one again; until another is accepted, it
/// stays the current one.
pub proof fn lemma_replaced_for_good(connection: u64, events: Seq<WsServerEvent>)
    requires
        accepted(events) <= u64::MAX,
    ensures
        connection_after_all(connection, events) == connection <==> accepted(events) == 0,
{
    lemma_connections_are_counted(connection, events);
}

/// Whether the WebSocket server, begun with nobody connected, answers the events by these
/// actions.
pub open spec fn is_server_run(events: Seq<WsServerEvent>, actions: Seq<WsServerAction>) -> bool
    decreases events.len(),
{
    if events.len() == 0 {
        actions.len() == 0
    } else {
        &&& actions.len() == events.len()
        &&& is_server_run(events.drop_last(), actions.drop_last())
        &&& is_server_action(
            connected_after_all(events.drop_last()),
            connection_after_all(0, events.drop_last()),
            events.last(),
            actions.last(),
        )
    }
}

/// How many handshakes were done.
pub open spec fn handshakes(events: Seq<WsServerEvent>) -> nat
    decreases events.len(),
{
    if events.len() == 0 {
        0
    } else {
        handshakes(events.drop_last()) + if events.last() is HandshakeDone {
            1nat
        } else {
            0nat
        }
    }
}

/// What the WebSocket server itself puts into the queue to the TCP side, in order.
pub open spec fn requested(actions: Seq<WsServerAction>) -> Seq<MessageModel>
    decreases actions.len(),
{
    if actions.len() == 0 {
        Seq::empty()
    } else {
        let before = requested(actions.drop_last());
        match actions.last() {
            WsServerAction::Install { request, .. } => before.push(request@),
            _ => before,
        }
    }
}

/// The WebSocket server asks for the list of clients once for each handshake that was done,
/// and for nothing else.
pub proof fn lemma_one_request_per_handshake(
    events: Seq<WsServerEvent>,
    actions: Seq<WsServerAction>,
)
    requires
        is_server_run(events, actions),
    ensures
        requested(actions) == Seq::new(
            handshakes(events),
            |i: int| MessageModel::Control(ControlModel::RequestClientList),
        ),
    decreases events.len(),
{
    if events.len() > 0 {
        lemma_one_request_per_handshake(events.drop_last(), actions.drop_last());
    }
    assert(requested(actions) =~= Seq::new(
        handshakes(events),
        |i: int| MessageModel::Control(ControlModel::RequestClientList),
    ));
}

/// The texts that the WebSocket server sends, in order.
pub open spec fn sent_texts(actions: Seq<WsServerAction>) -> Seq<Seq<char>>
    decreases actions.len(),
{
    if actions.len() == 0 {
        Seq::empty()
    } else {
        let before = sent_texts(actions.drop_last());
        match actions.last() {
            WsServerAction::Send(text) => before.push(text@),
            _ => before,
        }
    }
}

/// The messages that came out of the queue while somebody was connected, in order.
pub open spec fn heard_messages(events: Seq<WsServerEvent>) -> Seq<MessageModel>
    decreases events.len(),
{
    if events.len() == 0 {
        Seq::empty()
    } else {
        let before = heard_messages(events.drop_last());
        match events.last() {
            WsServerEvent::Queued(message) => if connected_after_all(events.drop_last()) {
                before.push(message@)
            } else {
                before
            },
            _ => before,
        }
    }
}

/// The texts of messages, in order.
pub open spec fn message_texts(messages: Seq<MessageModel>) -> Seq<Seq<char>> {
    Seq::new(messages.len(), |i: int| written_text(message_json(messages[i])))
}

/// What the WebSocket is sent is the text of each message that came out of the queue while
/// somebody was connected, once and in order.
pub proof fn lemma_websocket_gets_each_message(
    events: Seq<WsServerEvent>,
    actions: Seq<WsServerAction>,
)
    requires
        is_server_run(events, actions),
    ensures
        sent_texts(actions) == message_texts(heard_messages(events)),
    decreases events.len(),
{
    if events.len() > 0 {
        lemma_websocket_gets_each_message(events.drop_last(), actions.drop_last());
    }
    assert(sent_texts(actions) =~= message_texts(heard_messages(events)));
}

/// Whether the session of a client answers the events by these steps. Nothing happens after
/// what ends the session.
pub open spec fn is_session_run(
    client_id: Seq<char>,
    addr: Seq<char>,
    events: Seq<SessionEvent>,
    steps: Seq<SessionStep>,
) -> bool
    decreases events.len(),
{
    if events.len() == 0 {
        steps.len() == 0
    } else {
        &&& steps.len() == events.len()
        &&& is_session_run(client_id, addr, events.drop_last(), steps.drop_last())
        &&& !has_ended(events.drop_last())
        &&& is_session_step(client_id, addr, events.last(), steps.last())
    }
}

/// What a session told the WebSocket: that the client is there, and what the steps say.
pub open spec fn told(
    client_id: Seq<char>,
    addr: Seq<char>,
    steps: Seq<SessionStep>,
) -> Seq<MessageModel>
    decreases steps.len(),
{
    if steps.len() == 0 {
        seq![arrival(client_id, addr)]
    } else {
        told(client_id, addr, steps.drop_last()) + step_messages(steps.last())
    }
}

/// Of the times only those of the events count.
proof fn lemma_log_by_prefix(
    client_id: Seq<char>,
    addr: Seq<char>,
    events: Seq<SessionEvent>,
    a: Seq<Seq<char>>,
    b: Seq<Seq<char>>,
)
    requires
        events.len() <= a.len(),
        events.len() <= b.len(),
        forall|i: int| 0 <= i < events.len() ==> #[trigger] a[i] == b[i],
    ensures
        session_log(client_id, addr, events, a) == session_log(client_id, addr, events, b),
    decreases events.len(),
{
    if events.len() > 0 {
        lemma_log_by_prefix(client_id, addr, events.drop_last(), a, b);
        assert(a[events.len() - 1] == b[events.len() - 1]);
    }
}

/// What a session tells the WebSocket is its log, with the times at which the client sent
/// something.
pub proof fn lemma_session_tells_its_log(
    client_id: Seq<char>,
    addr: Seq<char>,
    events: Seq<SessionEvent>,
    steps: Seq<SessionStep>,
) -> (times: Seq<Seq<char>>)
    requires
        is_session_run(client_id, addr, events, steps),
    ensures
        times.len() == events.len(),
        forall|i: int|
            0 <= i < events.len() && events[i] is Received ==> is_rfc3339(#[trigger] times[i]),
        told(client_id, addr, steps) == session_log(client_id, addr, events, times),
    decreases events.len(),
{
    if events.len() == 0 {
        Seq::empty()
    } else {
        let front = events.drop_last();
        let before = lemma_session_tells_its_log(client_id, addr, front, steps.drop_last());
        let event = events.last();
        let step = steps.last();
        assert(tells(client_id, addr, event, step));
        let time = choose|time: Seq<char>|
            (event is Received ==> is_rfc3339(time)) && step_messages(step)
                == #[trigger] event_messages(client_id, addr, event, time);
        let times = before.push(time);
        lemma_log_by_prefix(client_id, addr, front, before, times);
        assert forall|i: int| 0 <= i < events.len() && events[i] is Received implies is_rfc3339(
            #[trigger] times[i],
        ) by {
            if i < front.len() {
                assert(front[i] == events[i]);
            }
        }
        times
    }
}

/// A session first tells the WebSocket that the client is there. Then it passes on what the
/// client sends. When it has ended, and not before, it tells last that the client is gone.
pub proof fn lemma_session_tells_a_life(
    client_id: Seq<char>,
    addr: Seq<char>,
    events: Seq<SessionEvent>,
    steps: Seq<SessionStep>,
)
    requires
        is_session_run(client_id, addr, events, steps),
    ensures
        told(client_id, addr, steps).len() > 0,
        told(client_id, addr, steps)[0] == arrival(client_id, addr),
        has_ended(events) ==> told(client_id, addr, steps).last() == departure(client_id),
        forall|i: int|
            0 < i < told(client_id, addr, steps).len() - if has_ended(events) {
                1int
            } else {
                0int
            } ==> (#[trigger] told(client_id, addr, steps)[i]) is TcpToWs,
{
    let times = lemma_session_tells_its_log(client_id, addr, events, steps);
    lemma_session_log(client_id, addr, events, times);
}

/// The values that came for a client, in order.
pub open spec fn values_for_client(events: Seq<SessionEvent>) -> Seq<JsonModel>
    decreases events.len(),
{
    if events.len() == 0 {
        Seq::empty()
    } else {
        let before = values_for_client(events.drop_last());
        match events.last() {
            SessionEvent::ForClient(data) => before.push(data@),
            _ => before,
        }
    }
}

/// The frames for values, one after the other.
pub open spec fn frames(values: Seq<JsonModel>) -> Seq<u8>
    decreases values.len(),
{
    if values.len() == 0 {
        Seq::empty()
    } else {
        frames(values.drop_last()) + server_frame(response_body(values.last()))
    }
}

/// The bytes that a session writes to its client, one after the other.
pub open spec fn written(steps: Seq<SessionStep>) -> Seq<u8>
    decreases steps.len(),
{
    if steps.len() == 0 {
        Seq::empty()
    } else {
        let before = written(steps.drop_last());
        match steps.last() {
            SessionStep::Write(frame) => before + frame@,
            _ => before,
        }
    }
}

/// What a session writes to its client is the frame of each value that came for the client,
/// once and in order.
pub proof fn lemma_session_writes_frames_in_order(
    client_id: Seq<char>,
    addr: Seq<char>,
    events: Seq<SessionEvent>,
    steps: Seq<SessionStep>,
)
    requires
        is_session_run(client_id, addr, events, steps),
    ensures
        written(steps) == frames(values_for_client(events)),
    decreases events.len(),
{
    if events.len() > 0 {
        lemma_session_writes_frames_in_order(
            client_id,
            addr,
            events.drop_last(),
            steps.drop_last(),
        );
        if let SessionEvent::ForClient(data) = events.last() {
            let before = values_for_client(events.drop_last());
            assert(before.push(data@).drop_last() =~= before);
        }
    }
}

/// Whether the messages from the WebSocket side, each at a moment when certain clients were
/// connected, are answered by these steps.
pub open spec fn is_dispatch_run(
    moments: Seq<(ClientsModel, MessageModel)>,
    steps: Seq<DispatchStep>,
) -> bool {
    &&& moments.len() == steps.len()
    &&& forall|i: int|
        0 <= i < moments.len() ==> is_dispatch_step(
            moments[i].0,
            moments[i].1,
            #[trigger] steps[i],
        )
}

/// What is handed to a client, with the queue into which it goes, in order.
pub open spec fn delivered(client_id: Seq<char>, steps: Seq<DispatchStep>) -> Seq<
    (tokio::sync::mpsc::Sender<Json>, JsonModel),
>
    decreases steps.len(),
{
    if steps.len() == 0 {
        Seq::empty()
    } else {
        let before = delivered(client_id, steps.drop_last());
        match steps.last() {
            DispatchStep::Deliver(delivery) => if delivery.client_id@ == client_id {
                before.push((delivery.sender, delivery.data@))
            } else {
                before
            },
            _ => before,
        }
    }
}

/// What was meant for a client at the moments when it was connected, with the queue that it
/// had, in order.
pub open spec fn meant(client_id: Seq<char>, moments: Seq<(ClientsModel, MessageModel)>) -> Seq<
    (tokio::sync::mpsc::Sender<Json>, JsonModel),
>
    decreases moments.len(),
{
    if moments.len() == 0 {
        Seq::empty()
    } else {
        let before = meant(client_id, moments.drop_last());
        let (clients, message) = moments.last();
        match message {
            MessageModel::WsToTcp { target_id, data } => if target_id == client_id
                && clients.contains_key(client_id) {
                before.push((clients[client_id].sender, data))
            } else {
                before
            },
            _ => before,
        }
    }
}

/// Each client is handed exactly what was meant for it while it was connected, into its own
/// queue, once and in order.
pub proof fn lemma_each_client_gets_its_data(
    client_id: Seq<char>,
    moments: Seq<(ClientsModel, MessageModel)>,
    steps: Seq<DispatchStep>,
)
    requires
        is_dispatch_run(moments, steps),
    ensures
        delivered(client_id, steps) == meant(client_id, moments),
    decreases moments.len(),
{
    if moments.len() > 0 {
        let front = moments.drop_last();
        let before = steps.drop_last();
        assert forall|i: int| 0 <= i < front.len() implies is_dispatch_step(
            front[i].0,
            front[i].1,
            #[trigger] before[i],
        ) by {
            assert(before[i] == steps[i] && front[i] == moments[i]);
        }
        lemma_each_client_gets_its_data(client_id, front, before);
        assert(is_dispatch_step(
            moments[moments.len() - 1].0,
            moments[moments.len() - 1].1,
            steps[steps.len() - 1],
        ));
    }
}

/// The values alone of what is handed to a client.
pub open spec fn values_of(
    deliveries: Seq<(tokio::sync::mpsc::Sender<Json>, JsonModel)>,
) -> Seq<JsonModel> {
    Seq::new(deliveries.len(), |i: int| deliveries[i].1)
}

/// Where a session has got from its queue what was put into it, in order, the bytes that it
/// has written to the client are the frames of what was meant for the client, in order.
pub proof fn lemma_meant_data_is_written(
    client_id: Seq<char>,
    addr: Seq<char>,
    events: Seq<SessionEvent>,
    session_steps: Seq<SessionStep>,
    moments: Seq<(ClientsModel, MessageModel)>,
    steps: Seq<DispatchStep>,
)
    requires
        is_session_run(client_id, addr, events, session_steps),
        is_dispatch_run(moments, steps),
        values_for_client(events) == values_of(delivered(client_id, steps)),
    ensures
        written(session_steps) == frames(values_of(meant(client_id, moments))),
{
    lemma_session_writes_frames_in_order(client_id, addr, events, session_steps);
    lemma_each_client_gets_its_data(client_id, moments, steps);
}

/// A change to who is connected.
pub enum ClientChange {
    /// A client is taken in.
    Arrives(ClientModel),
    /// The client that goes by this name, if any, is let go.
    Leaves(Seq<char>),
}

/// Who is connected after a change.
pub open spec fn clients_after(clients: ClientsModel, change: ClientChange) -> ClientsModel {
    match change {
        ClientChange::Arrives(client) => clients.insert(client.client_id, client),
        ClientChange::Leaves(client_id) => clients.remove(client_id),
    }
}

/// Who is connected after these changes, where nobody was before.
pub open spec fn clients_after_all(changes: Seq<ClientChange>) -> ClientsModel
    decreases changes.len(),
{
    if changes.len() == 0 {
        ClientsModel::empty()
    } else {
        clients_after(clients_after_all(changes.drop_last()), changes.last())
    }
}

/// How many clients were taken in under a name that nobody had.
pub open spec fn arrivals(changes: Seq<ClientChange>) -> nat
    decreases changes.len(),
{
    if changes.len() == 0 {
        0
    } else {
        let before = arrivals(changes.drop_last());
        match changes.last() {
            ClientChange::Arrives(client) => if clients_after_all(
                changes.drop_last(),
            ).contains_key(client.client_id) {
                before
            } else {
                before + 1
            },
            ClientChange::Leaves(_) => before,
        }
    }
}

/// How many clients that were there were let go.
pub open spec fn removals(changes: Seq<ClientChange>) -> nat
    decreases changes.len(),
{
    if changes.len() == 0 {
        0
    } else {
        let before = removals(changes.drop_last());
        match changes.last() {
            ClientChange::Arrives(_) => before,
            ClientChange::Leaves(client_id) => if clients_after_all(
                changes.drop_last(),
            ).contains_key(client_id) {
                before + 1
            } else {
                before
            },
        }
    }
}

/// As many clients are connected as arrived and were not removed, each under its own name.
pub proof fn lemma_clients_are_counted(changes: Seq<ClientChange>)
    ensures
        clients_after_all(changes).dom().finite(),
        clients_after_all(changes).len() == arrivals(changes) - removals(changes),
        forall|id: Seq<char>| #[trigger]
            clients_after_all(changes).contains_key(id) ==> clients_after_all(
                changes,
            )[id].client_id == id,
    decreases changes.len(),
{
    if changes.len() > 0 {
        lemma_clients_are_counted(changes.drop_last());
        let before = clients_after_all(changes.drop_last());
        let after = clients_after_all(changes);
        match changes.last() {
            ClientChange::Arrives(client) => {
                assert(after.dom() =~= before.dom().insert(client.client_id));
            },
            ClientChange::Leaves(client_id) => {
                assert(after.dom() =~= before.dom().remove(client_id));
            },
        }
    }
}

/// Something that is done for TCP clients.
pub enum Deed {
    /// A client is taken in.
    Opened(ClientModel),
    /// A step is made in the session of a client.
    Stepped { client_id: Seq<char>, addr: Seq<char>, event: SessionEvent, step: SessionStep },
}

/// Whether every step that was made is what its event calls for.
pub open spec fn are_deeds(deeds: Seq<Deed>) -> bool {
    forall|i: int|
        0 <= i < deeds.len() ==> ((#[trigger] deeds[i]) matches Deed::Stepped {
            client_id,
            addr,
            event,
            step,
        } ==> is_session_step(client_id, addr, event, step))
}

/// Who is connected after these deeds, where nobody was before.
pub open spec fn clients_after_deeds(deeds: Seq<Deed>) -> ClientsModel
    decreases deeds.len(),
{
    if deeds.len() == 0 {
        ClientsModel::empty()
    } else {
        let before = clients_after_deeds(deeds.drop_last());
        match deeds.last() {
            Deed::Opened(client) => clients_after(before, ClientChange::Arrives(client)),
            Deed::Stepped { client_id, event, .. } => if ends(event) {
                clients_after(before, ClientChange::Leaves(client_id))
            } else {
                before
            },
        }
    }
}

/// What the WebSocket is told by these deeds, in order.
pub open spec fn told_by_deeds(deeds: Seq<Deed>) -> Seq<MessageModel>
    decreases deeds.len(),
{
    if deeds.len() == 0 {
        Seq::empty()
    } else {
        told_by_deeds(deeds.drop_last()) + match deeds.last() {
            Deed::Opened(client) => seq![arrival(client.client_id, client.addr)],
            Deed::Stepped { step, .. } => step_messages(step),
        }
    }
}

/// The clients that are there by these messages: those that were said to be there and not
/// said to be gone since.
pub open spec fn there_by(messages: Seq<MessageModel>) -> Set<Seq<char>>
    decreases messages.len(),
{
    if messages.len() == 0 {
        Set::empty()
    } else {
        let before = there_by(messages.drop_last());
        match messages.last() {
            MessageModel::Control(ControlModel::TcpClientConnected { client_id, .. }) => {
                before.insert(client_id)
            },
            MessageModel::Control(ControlModel::TcpClientDisconnected { client_id }) => {
                before.remove(client_id)
            },
            _ => before,
        }
    }
}

/// Whoever follows the messages knows who is connected.
pub proof fn lemma_messages_tell_who_is_connected(deeds: Seq<Deed>)
    requires
        are_deeds(deeds),
    ensures
        there_by(told_by_deeds(deeds)) == clients_after_deeds(deeds).dom(),
    decreases deeds.len(),
{
    if deeds.len() > 0 {
        let front = deeds.drop_last();
        assert forall|i: int| 0 <= i < front.len() implies ((#[trigger] front[i]) matches
            Deed::Stepped { client_id, addr, event, step } ==> is_session_step(
            client_id,
            addr,
            event,
            step,
        )) by {
            assert(front[i] == deeds[i]);
        }
        lemma_messages_tell_who_is_connected(front);
        let before = told_by_deeds(front);
        let told = told_by_deeds(deeds);
        let last = deeds[deeds.len() - 1];
        match last {
            Deed::Opened(_) => {
                assert(told.drop_last() =~= before);
            },
            Deed::Stepped { client_id, addr, event, step } => {
                assert(tells(client_id, addr, event, step));
                if event is Received || ends(event) {
                    assert(told.drop_last() =~= before);
                } else {
                    assert(told =~= before);
                }
            },
        }
        assert(there_by(told) =~= clients_after_deeds(deeds).dom());
    }
}

/// What is left of two sequences without the first is the second.
proof fn lemma_front_skipped(front: Seq<u8>, tail: Seq<u8>)
    ensures
        (front + tail).skip(front.len() as int) == tail,
{
    assert((front + tail).skip(front.len() as int) =~= tail);
}

/// The bodies that the server takes off what comes in, one after the other, as long as whole
/// frames that it accepts are there.
#[verifier::opaque]
pub open spec fn server_bodies(stream: Seq<u8>) -> Seq<Seq<u8>>
    decreases stream.len(),
{
    match server_body(stream) {
        Some(body) => seq![body] + server_bodies(stream.skip(PREFIX_LEN + body.len())),
        None => Seq::empty(),
    }
}

/// The frames that the server writes round bodies, one after the other.
pub open spec fn server_frames(bodies: Seq<Seq<u8>>) -> Seq<u8>
    decreases bodies.len(),
{
    if bodies.len() == 0 {
        Seq::empty()
    } else {
        server_frame(bodies[0]) + server_frames(bodies.skip(1))
    }
}

/// Where a body can be taken off a stream, it comes first, and then what comes after it.
#[verifier::spinoff_prover]
proof fn lemma_server_takes_the_first(frame: Seq<u8>, body: Seq<u8>, tail: Seq<u8>)
    requires
        server_body(frame + tail) == Some(body),
        frame.len() == PREFIX_LEN + body.len(),
    ensures
        server_bodies(frame + tail) == seq![body] + server_bodies(tail),
{
    lemma_front_skipped(frame, tail);
    reveal(server_bodies);
}

/// The frame of the server is as long as the length and the body.
proof fn lemma_server_frame_len(body: Seq<u8>)
    ensures
        server_frame(body).len() == PREFIX_LEN + body.len(),
{
}

/// Off nothing, the server takes nothing.
proof fn lemma_server_takes_nothing()
    ensures
        server_bodies(Seq::empty()) == Seq::<Seq<u8>>::empty(),
{
    reveal(server_bodies);
}

/// However many frames come in one after the other, the server takes the bodies off them that
/// they were written round, in order and without losing the place, as long as each body
/// fits the limit.
#[verifier::spinoff_prover]
pub proof fn lemma_server_keeps_its_place(bodies: Seq<Seq<u8>>)
    requires
        forall|i: int| 0 <= i < bodies.len() ==> (#[trigger] bodies[i]).len() <= SERVER_BODY_LIMIT,
    ensures
        server_bodies(server_frames(bodies)) == bodies,
    decreases bodies.len(),
{
    if bodies.len() == 0 {
        lemma_server_takes_nothing();
        assert(bodies =~= Seq::empty());
    } else {
        let rest = bodies.skip(1);
        assert forall|i: int| 0 <= i < rest.len() implies (#[trigger] rest[i]).len()
            <= SERVER_BODY_LIMIT by {
            assert(rest[i] == bodies[i + 1]);
        }
        lemma_server_keeps_its_place(rest);
        lemma_server_reads_its_frame(bodies[0], server_frames(rest));
        lemma_server_frame_len(bodies[0]);
        lemma_server_takes_the_first(server_frame(bodies[0]), bodies[0], server_frames(rest));
        assert(seq![bodies[0]] + rest =~= bodies);
    }
}

/// The bodies that the terminal client takes off what comes in, one after the other, as long
/// as whole frames that it accepts are there.
#[verifier::opaque]
pub open spec fn client_bodies(stream: Seq<u8>) -> Seq<Seq<u8>>
    decreases stream.len(),
{
    match client_body(stream) {
        Some(body) => seq![body] + client_bodies(stream.skip(PREFIX_LEN + body.len())),
        None => Seq::empty(),
    }
}

/// The frames that the terminal client writes round bodies, one after the other.
pub open spec fn client_frames(bodies: Seq<Seq<u8>>) -> Seq<u8>
    decreases bodies.len(),
{
    if bodies.len() == 0 {
        Seq::empty()
    } else {
        client_frame(bodies[0]) + client_frames(bodies.skip(1))
    }
}

/// Where a body can be taken off a stream, it comes first, and then what comes after it.
#[verifier::spinoff_prover]
proof fn lemma_client_takes_the_first(frame: Seq<u8>, body: Seq<u8>, tail: Seq<u8>)
    requires
        client_body(frame + tail) == Some(body),
        frame.len() == PREFIX_LEN + body.len(),
    ensures
        client_bodies(frame + tail) == seq![body] + client_bodies(tail),
{
    lemma_front_skipped(frame, tail);
    reveal(client_bodies);
}

/// The frame of the terminal client is as long as the length and the body.
proof fn lemma_client_frame_len(body: Seq<u8>)
    ensures
        client_frame(body).len() == PREFIX_LEN + body.len(),
{
}

/// Off nothing, the terminal client takes nothing.
proof fn lemma_client_takes_nothing()
    ensures
        client_bodies(Seq::empty()) == Seq::<Seq<u8>>::empty(),
{
    reveal(client_bodies);
}

/// However many frames come in one after the other, the terminal client takes the bodies off them that
/// they were written round, in order and without losing the place, as long as each body
/// fits the limit.
#[verifier::spinoff_prover]
pub proof fn lemma_client_keeps_its_place(bodies: Seq<Seq<u8>>)
    requires
        forall|i: int| 0 <= i < bodies.len() ==> (#[trigger] bodies[i]).len() <= CLIENT_BODY_LIMIT,
    ensures
        client_bodies(client_frames(bodies)) == bodies,
    decreases bodies.len(),
{
    if bodies.len() == 0 {
        lemma_client_takes_nothing();
        assert(bodies =~= Seq::empty());
    } else {
        let rest = bodies.skip(1);
        assert forall|i: int| 0 <= i < rest.len() implies (#[trigger] rest[i]).len()
            <= CLIENT_BODY_LIMIT by {
            assert(rest[i] == bodies[i + 1]);
        }
        lemma_client_keeps_its_place(rest);
        lemma_client_reads_its_frame(bodies[0], client_frames(rest));
        lemma_client_frame_len(bodies[0]);
        lemma_client_takes_the_first(client_frame(bodies[0]), bodies[0], client_frames(rest));
        assert(seq![bodies[0]] + rest =~= bodies);
    }
}

} // verus!
