//! Channels: the two queues between the sides of the bridge, and the queue of one
//! TCP client.

use vstd::prelude::*;
use crate::json::Json;
use crate::message::MessageType;

verus! {

/// `async_channel::Sender`: the sending end of a queue.
#[verifier::external_type_specification]
#[verifier::external_body]
#[verifier::reject_recursive_types(T)]
pub struct ExQueueSender<T>(async_channel::Sender<T>);

/// `async_channel::Receiver`: the receiving end of a queue.
#[verifier::external_type_specification]
#[verifier::external_body]
#[verifier::reject_recursive_types(T)]
pub struct ExQueueReceiver<T>(async_channel::Receiver<T>);

/// `tokio::sync::mpsc::Sender`: the sending end of the queue of a client.
#[verifier::external_type_specification]
#[verifier::external_body]
#[verifier::reject_recursive_types(T)]
pub struct ExClientSender<T>(tokio::sync::mpsc::Sender<T>);

/// `tokio::sync::mpsc::Receiver`: the receiving end of the queue of a client.
#[verifier::external_type_specification]
#[verifier::external_body]
#[verifier::reject_recursive_types(T)]
pub struct ExClientReceiver<T>(tokio::sync::mpsc::Receiver<T>);

/// How many messages a queue was made to hold.
pub uninterp spec fn queue_capacity(sender: async_channel::Sender<MessageType>) -> nat;

/// The sending end of the queue that `receiver` takes messages from. The ends of one queue
/// are interchangeable.
pub uninterp spec fn queue_source(
    receiver: async_channel::Receiver<MessageType>,
) -> async_channel::Sender<MessageType>;

/// How many values the queue of a client was made to hold.
pub uninterp spec fn client_capacity(sender: tokio::sync::mpsc::Sender<Json>) -> nat;

/// The sending end of the queue that `receiver` takes values from. The sending ends of one
/// queue are interchangeable.
pub uninterp spec fn client_source(
    receiver: tokio::sync::mpsc::Receiver<Json>,
) -> tokio::sync::mpsc::Sender<Json>;

/// `async_channel::bounded`: the two ends of a new queue that holds as many messages as
/// asked for. It panics on a capacity of zero, and on one for which it cannot have the
/// memory, which it takes at once.
#[verifier::external_body]
fn bounded_queue(capacity: usize) -> (ends: (
    async_channel::Sender<MessageType>,
    async_channel::Receiver<MessageType>,
))
    requires
        0 < capacity <= 65536,
    ensures
        queue_capacity(ends.0) == capacity,
        queue_source(ends.1) == ends.0,
{
    async_channel::bounded(capacity)
}

/// `tokio::sync::mpsc::channel`: the two ends of a new queue that holds as many values as
/// asked for. It panics on a capacity of zero, and on one above the number of permits
/// that a semaphore of `tokio` can have.
#[verifier::external_body]
fn bounded_channel(capacity: usize) -> (ends: (
    tokio::sync::mpsc::Sender<Json>,
    tokio::sync::mpsc::Receiver<Json>,
))
    requires
        0 < capacity <= usize::MAX / 8,
    ensures
        client_capacity(ends.0) == capacity,
        client_source(ends.1) == ends.0,
{
    tokio::sync::mpsc::channel(capacity)
}

/// `tokio::sync::mpsc::Sender::clone`: another sending end of the same queue. The sending
/// ends of one queue are interchangeable.
#[verifier::external_body]
pub(crate) fn share_sender(sender: &tokio::sync::mpsc::Sender<Json>) -> (shared:
    tokio::sync::mpsc::Sender<Json>)
    ensures
        shared == *sender,
{
    sender.clone()
}

/// How many messages each of the two queues holds.
pub const QUEUE_CAPACITY: usize = 100;

/// How many values the queue of a client holds.
pub const CLIENT_CAPACITY: usize = 32;

/// The two queues between the TCP side and the WebSocket side.
pub struct MessageQueue {
    pub tcp_to_ws_sender: async_channel::Sender<MessageType>,
    pub tcp_to_ws_receiver: async_channel::Receiver<MessageType>,
    pub ws_to_tcp_sender: async_channel::Sender<MessageType>,
    pub ws_to_tcp_receiver: async_channel::Receiver<MessageType>,
}

impl MessageQueue {
    /// Two new queues, each with both its ends.
    pub fn new() -> (queue: Self)
        ensures
            queue_capacity(queue.tcp_to_ws_sender) == QUEUE_CAPACITY,
            queue_capacity(queue.ws_to_tcp_sender) == QUEUE_CAPACITY,
            queue_source(queue.tcp_to_ws_receiver) == queue.tcp_to_ws_sender,
            queue_source(queue.ws_to_tcp_receiver) == queue.ws_to_tcp_sender,
    {
        let (tcp_to_ws_sender, tcp_to_ws_receiver) = bounded_queue(QUEUE_CAPACITY);
        let (ws_to_tcp_sender, ws_to_tcp_receiver) = bounded_queue(QUEUE_CAPACITY);
        MessageQueue { tcp_to_ws_sender, tcp_to_ws_receiver, ws_to_tcp_sender, ws_to_tcp_receiver }
    }
}

/// The two ends of the queue of a new client.
pub fn client_channel() -> (ends: (
    tokio::sync::mpsc::Sender<Json>,
    tokio::sync::mpsc::Receiver<Json>,
))
    ensures
        client_capacity(ends.0) == CLIENT_CAPACITY,
        client_source(ends.1) == ends.0,
{
    bounded_channel(CLIENT_CAPACITY)
}

} // verus!
