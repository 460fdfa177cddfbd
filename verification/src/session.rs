//! The life of one TCP client, from its connecting to its going.

use vstd::prelude::*;
use crate::ambient::local_time;
#[allow(unused_imports)]
use crate::ambient::{is_rfc3339, is_uuid_v4};
use crate::channel::client_channel;
#[allow(unused_imports)]
use crate::channel::{client_capacity, client_source, CLIENT_CAPACITY};
use crate::clients::TcpClientManager;
use crate::frame::{send_response, TcpError};
#[allow(unused_imports)]
use crate::frame::{response_body, server_frame};
use crate::json::Json;
#[allow(unused_imports)]
use crate::json::{with_member, JsonModel};
use crate::message::{ControlMessage, MessageType};
#[allow(unused_imports)]
use crate::message::{ControlModel, MessageModel};

verus! {

/// A TCP client that is being served.
#[derive(Debug)]
pub struct TcpSession {
    pub client_id: String,
    /// The socket address of the client, as text.
    pub addr: String,
    /// Whether the session goes on.
    pub open: bool,
}

/// Data from a client as the WebSocket gets it: an object also says where it came from and
/// when; any other value is passed on as it is.
pub open spec fn enriched(
    data: JsonModel,
    client_id: Seq<char>,
    addr: Seq<char>,
    timestamp: Seq<char>,
) -> JsonModel {
    with_member(
        with_member(
            with_member(data, "client_id"@, JsonModel::Text(client_id)),
            "source_addr"@,
            JsonModel::Text(addr),
        ),
        "timestamp"@,
        JsonModel::Text(timestamp),
    )
}

/// Data from a client as the WebSocket gets it.
pub fn enrich(data: Json, client_id: &str, addr: &str, timestamp: &str) -> (json: Json)
    ensures
        json@ == enriched(data@, client_id@, addr@, timestamp@),
{
    data.set_member("client_id", Json::Text(client_id.to_owned())).set_member(
        "source_addr",
        Json::Text(addr.to_owned()),
    ).set_member("timestamp", Json::Text(timestamp.to_owned()))
}

/// What happens in a session.
#[derive(Debug)]
pub enum SessionEvent {
    /// The client sent a value.
    Received(Json),
    /// Nothing can be read from the client any more.
    ReadFailed(TcpError),
    /// The WebSocket has a value for the client.
    ForClient(Json),
    /// The WebSocket will have no more values for the client.
    QueueClosed,
    /// A frame was written.
    Written,
    /// A frame could not be written; this is what the system says.
    WriteFailed(String),
}

/// What is done in a session.
#[derive(Debug)]
pub enum SessionStep {
    /// Put this message into the queue to the WebSocket side.
    Forward(MessageType),
    /// Write this frame to the client.
    Write(Vec<u8>),
    /// Wait for what comes next.
    Wait,
    /// The session is over: put this message into the queue to the WebSocket side.
    Finish { result: Result<(), TcpError>, notification: MessageType },
}

/// The message that tells the WebSocket that a client is there.
pub open spec fn arrival(client_id: Seq<char>, addr: Seq<char>) -> MessageModel {
    MessageModel::Control(ControlModel::TcpClientConnected { client_id, addr })
}

/// The message that tells the WebSocket that a client is gone.
pub open spec fn departure(client_id: Seq<char>) -> MessageModel {
    MessageModel::Control(ControlModel::TcpClientDisconnected { client_id })
}

/// Takes in a client that has connected: gives it a queue and a name, and a message that
/// tells the WebSocket of it.
pub fn open_session(manager: &mut TcpClientManager, addr: String) -> (opened: (
    TcpSession,
    tokio::sync::mpsc::Receiver<Json>,
    MessageType,
))
    requires
        old(manager).wf(),
    ensures
        final(manager).wf(),
        is_uuid_v4(opened.0.client_id@),
        opened.0.addr@ == addr@,
        opened.0.open,
        final(manager)@ == old(manager)@.insert(
            opened.0.client_id@,
            final(manager)@[opened.0.client_id@],
        ),
        final(manager)@[opened.0.client_id@].client_id == opened.0.client_id@,
        final(manager)@[opened.0.client_id@].addr == addr@,
        final(manager)@[opened.0.client_id@].sender == client_source(opened.1),
        is_rfc3339(final(manager)@[opened.0.client_id@].connected_at),
        client_capacity(client_source(opened.1)) == CLIENT_CAPACITY,
        opened.2@ == arrival(opened.0.client_id@, addr@),
{
    let (sender, receiver) = client_channel();
    let client_id = manager.add_client(addr.clone(), sender);
    let notification = MessageType::Control(
        ControlMessage::TcpClientConnected { client_id: client_id.clone(), addr: addr.clone() },
    );
    (TcpSession { client_id, addr, open: true }, receiver, notification)
}

/// Whether an event ends a session.
pub open spec fn ends(event: SessionEvent) -> bool {
    event is ReadFailed || event is QueueClosed || event is WriteFailed
}

/// What an event makes the session tell the WebSocket.
pub open spec fn event_messages(
    client_id: Seq<char>,
    addr: Seq<char>,
    event: SessionEvent,
    timestamp: Seq<char>,
) -> Seq<MessageModel> {
    match event {
        SessionEvent::Received(data) => seq![
            MessageModel::TcpToWs(enriched(data@, client_id, addr, timestamp)),
        ],
        _ => if ends(event) {
            seq![departure(client_id)]
        } else {
            Seq::empty()
        },
    }
}

/// What a step tells the WebSocket.
pub open spec fn step_messages(step: SessionStep) -> Seq<MessageModel> {
    match step {
        SessionStep::Forward(message) => seq![message@],
        SessionStep::Finish { notification, .. } => seq![notification@],
        _ => Seq::empty(),
    }
}

/// Whether a step tells the WebSocket what an event calls for, at whatever time it was.
pub open spec fn tells(
    client_id: Seq<char>,
    addr: Seq<char>,
    event: SessionEvent,
    step: SessionStep,
) -> bool {
    exists|timestamp: Seq<char>|
        (event is Received ==> is_rfc3339(timestamp)) && step_messages(step)
            == #[trigger] event_messages(client_id, addr, event, timestamp)
}

/// Whether a step is what an event calls for in the session of a client.
pub open spec fn is_session_step(
    client_id: Seq<char>,
    addr: Seq<char>,
    event: SessionEvent,
    step: SessionStep,
) -> bool {
    tells(client_id, addr, event, step) && match event {
        SessionEvent::Received(_) => step is Forward,
        SessionEvent::ReadFailed(error) => step matches SessionStep::Finish { result, .. } && result
            == Err::<(), TcpError>(error),
        SessionEvent::ForClient(data) => step matches SessionStep::Write(frame) && frame@
            == server_frame(response_body(data@)),
        SessionEvent::QueueClosed => step matches SessionStep::Finish { result, .. } && result
            == Ok::<(), TcpError>(()),
        SessionEvent::Written => step is Wait,
        SessionEvent::WriteFailed(text) => step matches SessionStep::Finish { result, .. } && result
            == Err::<(), TcpError>(TcpError::Io(text)),
    }
}

impl TcpSession {
    /// Ends the session: the client goes, and the WebSocket is told of it.
    fn finish(&mut self, manager: &mut TcpClientManager, result: Result<(), TcpError>) -> (step:
        SessionStep)
        requires
            old(manager).wf(),
        ensures
            final(manager).wf(),
            final(manager)@ == old(manager)@.remove(old(self).client_id@),
            final(self).client_id@ == old(self).client_id@,
            final(self).addr@ == old(self).addr@,
            !final(self).open,
            step matches SessionStep::Finish { result: given, notification } && given == result
                && notification@ == departure(old(self).client_id@),
    {
        manager.remove_client(self.client_id.as_str());
        self.open = false;
        SessionStep::Finish {
            result,
            notification: MessageType::Control(
                ControlMessage::TcpClientDisconnected { client_id: self.client_id.clone() },
            ),
        }
    }

    /// One step of a session. Whatever ends the session, the client is taken out and the
    /// WebSocket is told of it.
    pub fn handle_tcp_client(
        &mut self,
        manager: &mut TcpClientManager,
        event: SessionEvent,
    ) -> (step: SessionStep)
        requires
            old(self).open,
            old(manager).wf(),
        ensures
            final(manager).wf(),
            final(manager)@ == if ends(event) {
                old(manager)@.remove(old(self).client_id@)
            } else {
                old(manager)@
            },
            final(self).client_id@ == old(self).client_id@,
            final(self).addr@ == old(self).addr@,
            final(self).open == !ends(event),
            is_session_step(old(self).client_id@, old(self).addr@, event, step),
    {
        let ghost never = event_messages(self.client_id@, self.addr@, event, Seq::empty());
        match event {
            SessionEvent::Received(data) => {
                let timestamp = local_time();
                let ghost now = event_messages(self.client_id@, self.addr@, event, timestamp@);
                let json = enrich(
                    data,
                    self.client_id.as_str(),
                    self.addr.as_str(),
                    timestamp.as_str(),
                );
                SessionStep::Forward(MessageType::TcpToWs(json))
            },
            SessionEvent::ReadFailed(error) => self.finish(manager, Err(error)),
            SessionEvent::ForClient(data) => match send_response(&data) {
                Ok(frame) => SessionStep::Write(frame),
                Err(error) => self.finish(manager, Err(TcpError::Json(error))),
            },
            SessionEvent::QueueClosed => self.finish(manager, Ok(())),
            SessionEvent::Written => SessionStep::Wait,
            SessionEvent::WriteFailed(text) => self.finish(manager, Err(TcpError::Io(text))),
        }
    }
}

/// What a session that went through `events` told the WebSocket, where each event happened
/// at the time of the same place in `times`. Nothing comes after the end.
pub open spec fn session_log(
    client_id: Seq<char>,
    addr: Seq<char>,
    events: Seq<SessionEvent>,
    times: Seq<Seq<char>>,
) -> Seq<MessageModel>
    decreases events.len(),
{
    if events.len() == 0 {
        seq![arrival(client_id, addr)]
    } else {
        let before = session_log(client_id, addr, events.drop_last(), times);
        if has_ended(events.drop_last()) {
            before
        } else {
            before + event_messages(client_id, addr, events.last(), times[events.len() - 1])
        }
    }
}

/// Whether one of the events ended the session.
pub open spec fn has_ended(events: Seq<SessionEvent>) -> bool {
    exists|i: int| 0 <= i < events.len() && ends(#[trigger] events[i])
}

/// A session first tells the WebSocket that the client is there, then passes on what the
/// client sends, and last, when it has ended and not before, tells that the client is
/// gone.
pub proof fn lemma_session_log(
    client_id: Seq<char>,
    addr: Seq<char>,
    events: Seq<SessionEvent>,
    times: Seq<Seq<char>>,
)
    ensures
        session_log(client_id, addr, events, times).len() > 0,
        session_log(client_id, addr, events, times)[0] == arrival(client_id, addr),
        has_ended(events) ==> session_log(client_id, addr, events, times).len() > 1
            && session_log(client_id, addr, events, times).last() == departure(client_id),
        forall|i: int|
            0 < i < session_log(client_id, addr, events, times).len() - if has_ended(events) {
                1int
            } else {
                0int
            } ==> (#[trigger] session_log(client_id, addr, events, times)[i]) is TcpToWs,
    decreases events.len(),
{
    if events.len() > 0 {
        let front = events.drop_last();
        let before = session_log(client_id, addr, front, times);
        lemma_session_log(client_id, addr, front, times);
        if has_ended(front) {
            let i = choose|i: int| 0 <= i < front.len() && ends(#[trigger] front[i]);
            assert(ends(events[i]));
        } else {
            let last = event_messages(client_id, addr, events.last(), times[events.len() - 1]);
            if ends(events.last()) {
                assert(ends(events[events.len() - 1]));
                assert((before + last).last() == departure(client_id));
            } else {
                assert forall|i: int| 0 <= i < events.len() implies !ends(
                    #[trigger] events[i],
                ) by {
                    if i < front.len() {
                        assert(front[i] == events[i]);
                    }
                }
            }
        }
    }
}

} // verus!
