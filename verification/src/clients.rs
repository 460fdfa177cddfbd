//! The TCP clients that are connected.

use vstd::prelude::*;
use crate::ambient::{local_time, random_id};
#[allow(unused_imports)]
use crate::ambient::{is_rfc3339, is_uuid_v4};
use crate::channel::share_sender;
use crate::json::{same_text, Json};
use crate::message::TcpClientInfo;
#[allow(unused_imports)]
use crate::message::{info_models, InfoModel};

verus! {

/// A TCP client that is connected.
pub struct TcpClient {
    pub client_id: String,
    /// The socket address of the client, as text.
    pub addr: String,
    /// Where values for this client go.
    pub sender: tokio::sync::mpsc::Sender<Json>,
    /// When the client connected.
    pub connected_at: String,
}

/// What is known of a client.
pub struct ClientModel {
    pub client_id: Seq<char>,
    pub addr: Seq<char>,
    pub sender: tokio::sync::mpsc::Sender<Json>,
    pub connected_at: Seq<char>,
}

impl View for TcpClient {
    type V = ClientModel;

    open spec fn view(&self) -> ClientModel {
        ClientModel {
            client_id: self.client_id@,
            addr: self.addr@,
            sender: self.sender,
            connected_at: self.connected_at@,
        }
    }
}

/// The clients by what they are called.
pub type ClientsModel = Map<Seq<char>, ClientModel>;

/// The TCP clients that are connected, each under a name of its own.
pub struct TcpClientManager {
    clients: Vec<TcpClient>,
}

/// The map that a list of clients amounts to.
spec fn clients_model(clients: Seq<TcpClient>) -> ClientsModel
    decreases clients.len(),
{
    if clients.len() == 0 {
        Map::empty()
    } else {
        clients_model(clients.drop_last()).insert(clients.last().client_id@, clients.last()@)
    }
}

/// Whether no two clients of a list are called the same.
spec fn all_distinct(clients: Seq<TcpClient>) -> bool {
    forall|i: int, j: int|
        0 <= i < j < clients.len() ==> (#[trigger] clients[i]).client_id@ != (
        #[trigger] clients[j]).client_id@
}

/// A list of distinct clients amounts to the map that has exactly those clients.
proof fn lemma_clients_model(clients: Seq<TcpClient>)
    requires
        all_distinct(clients),
    ensures
        clients_model(clients).dom().finite(),
        forall|i: int|
            0 <= i < clients.len() ==> clients_model(clients).contains_key(
                (#[trigger] clients[i]).client_id@,
            ) && clients_model(clients)[clients[i].client_id@] == clients[i]@,
        forall|id: Seq<char>| #[trigger]
            clients_model(clients).contains_key(id) ==> exists|i: int|
                0 <= i < clients.len() && (#[trigger] clients[i]).client_id@ == id,
    decreases clients.len(),
{
    if clients.len() > 0 {
        let front = clients.drop_last();
        assert(forall|i: int| 0 <= i < front.len() ==> front[i] == clients[i]);
        assert(all_distinct(front));
        lemma_clients_model(front);
        assert forall|id: Seq<char>| #[trigger]
            clients_model(clients).contains_key(id) implies exists|i: int|
            0 <= i < clients.len() && (#[trigger] clients[i]).client_id@ == id by {
            if id == clients.last().client_id@ {
                assert(clients[clients.len() - 1].client_id@ == id);
            } else {
                let i = choose|i: int|
                    0 <= i < front.len() && (#[trigger] front[i]).client_id@ == id;
                assert(clients[i].client_id@ == id);
            }
        }
    }
}

/// Taking one client off a list of distinct clients takes it off the map.
proof fn lemma_clients_remove(clients: Seq<TcpClient>, p: int)
    requires
        all_distinct(clients),
        0 <= p < clients.len(),
    ensures
        all_distinct(clients.remove(p)),
        clients_model(clients.remove(p)) == clients_model(clients).remove(clients[p].client_id@),
{
    let rest = clients.remove(p);
    assert forall|i: int, j: int| 0 <= i < j < rest.len() implies (#[trigger] rest[i]).client_id@
        != (#[trigger] rest[j]).client_id@ by {
        let a = if i < p { i } else { i + 1 };
        let b = if j < p { j } else { j + 1 };
        assert(rest[i] == clients[a] && rest[j] == clients[b]);
    }
    lemma_clients_model(clients);
    lemma_clients_model(rest);
    let gone = clients[p].client_id@;
    assert forall|id: Seq<char>|
        clients_model(rest).contains_key(id) == clients_model(clients).remove(gone).contains_key(
            id,
        ) by {
        if clients_model(rest).contains_key(id) {
            let i = choose|i: int| 0 <= i < rest.len() && (#[trigger] rest[i]).client_id@ == id;
            let a = if i < p { i } else { i + 1 };
            assert(rest[i] == clients[a]);
        }
        if clients_model(clients).remove(gone).contains_key(id) {
            let a = choose|a: int|
                0 <= a < clients.len() && (#[trigger] clients[a]).client_id@ == id;
            let i = if a < p { a } else { a - 1 };
            assert(rest[i] == clients[a]);
        }
    }
    assert forall|id: Seq<char>| #[trigger]
        clients_model(rest).contains_key(id) implies clients_model(rest)[id] == clients_model(
        clients,
    ).remove(gone)[id] by {
        let i = choose|i: int| 0 <= i < rest.len() && (#[trigger] rest[i]).client_id@ == id;
        let a = if i < p { i } else { i + 1 };
        assert(rest[i] == clients[a]);
    }
    assert(clients_model(rest) =~= clients_model(clients).remove(gone));
}

/// What the WebSocket is told of a client.
pub open spec fn info_of(client: ClientModel) -> InfoModel {
    InfoModel {
        client_id: client.client_id,
        addr: client.addr,
        connected_at: client.connected_at,
    }
}

/// Whether a list tells of every client once and of nothing else. The order is open.
pub open spec fn is_listing(clients: ClientsModel, list: Seq<InfoModel>) -> bool {
    &&& list.len() == clients.len()
    &&& forall|i: int|
        0 <= i < list.len() ==> clients.contains_key((#[trigger] list[i]).client_id) && list[i]
            == info_of(clients[list[i].client_id])
    &&& forall|i: int, j: int|
        0 <= i < j < list.len() ==> (#[trigger] list[i]).client_id != (#[trigger] list[j]).client_id
    &&& forall|id: Seq<char>| #[trigger]
        clients.contains_key(id) ==> exists|i: int|
            0 <= i < list.len() && (#[trigger] list[i]).client_id == id
}

/// A value on its way to a client.
pub struct Delivery {
    pub client_id: String,
    /// Where the value goes.
    pub sender: tokio::sync::mpsc::Sender<Json>,
    pub data: Json,
}

/// What is said where nobody goes by `id`.
pub open spec fn not_found_text(id: Seq<char>) -> Seq<char> {
    "Client "@ + id + " not found"@
}

/// What is said where the value could not be handed to the client.
pub open spec fn not_sent_text(id: Seq<char>, reason: Seq<char>) -> Seq<char> {
    "Failed to send message to client "@ + id + ": "@ + reason
}

impl View for TcpClientManager {
    type V = ClientsModel;

    closed spec fn view(&self) -> ClientsModel {
        clients_model(self.clients@)
    }
}

impl TcpClientManager {
    /// Each client goes by a name of its own.
    pub closed spec fn wf(&self) -> bool {
        all_distinct(self.clients@)
    }

    /// Nobody is connected.
    pub fn new() -> (manager: Self)
        ensures
            manager.wf(),
            manager@ == ClientsModel::empty(),
    {
        TcpClientManager { clients: Vec::new() }
    }

    /// Where the client that goes by `client_id` stands in the list.
    fn position(&self, client_id: &str) -> (position: Option<usize>)
        requires
            self.wf(),
        ensures
            match position {
                Some(p) => {
                    &&& p < self.clients@.len()
                    &&& self.clients@[p as int].client_id@ == client_id@
                    &&& self@.contains_key(client_id@)
                    &&& self@[client_id@] == self.clients@[p as int]@
                },
                None => !self@.contains_key(client_id@),
            },
    {
        proof {
            lemma_clients_model(self.clients@);
        }
        let mut i: usize = 0;
        while i < self.clients.len()
            invariant
                i <= self.clients@.len(),
                all_distinct(self.clients@),
                forall|id: Seq<char>| #[trigger]
                    clients_model(self.clients@).contains_key(id) ==> exists|k: int|
                        0 <= k < self.clients@.len() && (
                        #[trigger] self.clients@[k]).client_id@ == id,
                forall|k: int|
                    0 <= k < self.clients@.len() ==> clients_model(self.clients@).contains_key(
                        (#[trigger] self.clients@[k]).client_id@,
                    ) && clients_model(self.clients@)[self.clients@[k].client_id@]
                        == self.clients@[k]@,
                forall|k: int|
                    0 <= k < i ==> (#[trigger] self.clients@[k]).client_id@ != client_id@,
            decreases self.clients@.len() - i,
        {
            if same_text(self.clients[i].client_id.as_str(), client_id) {
                return Some(i);
            }
            i = i + 1;
        }
        None
    }

    /// Takes a client in. Whoever went by the same name is replaced.
    pub fn insert_client(&mut self, client: TcpClient)
        requires
            old(self).wf(),
        ensures
            final(self).wf(),
            final(self)@ == old(self)@.insert(client.client_id@, client@),
    {
        self.remove_client(client.client_id.as_str());
        let ghost rest = self.clients@;
        proof {
            lemma_clients_model(rest);
            assert forall|i: int| 0 <= i < rest.len() implies (#[trigger] rest[i]).client_id@
                != client.client_id@ by {
                assert(clients_model(rest).contains_key(rest[i].client_id@));
            }
            assert(rest.push(client).drop_last() =~= rest);
        }
        self.clients.push(client);
        assert(self@ =~= old(self)@.insert(client.client_id@, client@));
    }

    /// Takes a client in under a random name, with the time of the clock, and gives
    /// that name.
    pub fn add_client(&mut self, addr: String, sender: tokio::sync::mpsc::Sender<Json>) -> (id:
        String)
        requires
            old(self).wf(),
        ensures
            final(self).wf(),
            is_uuid_v4(id@),
            final(self)@.contains_key(id@),
            final(self)@[id@].client_id == id@,
            final(self)@[id@].addr == addr@,
            final(self)@[id@].sender == sender,
            is_rfc3339(final(self)@[id@].connected_at),
            final(self)@ == old(self)@.insert(id@, final(self)@[id@]),
    {
        let client_id = random_id();
        let connected_at = local_time();
        let client = TcpClient { client_id: client_id.clone(), addr, sender, connected_at };
        self.insert_client(client);
        client_id
    }

    /// Lets a client go, and says whether it was there.
    pub fn remove_client(&mut self, client_id: &str) -> (removed: bool)
        requires
            old(self).wf(),
        ensures
            final(self).wf(),
            removed == old(self)@.contains_key(client_id@),
            final(self)@ == old(self)@.remove(client_id@),
    {
        match self.position(client_id) {
            Some(p) => {
                proof {
                    lemma_clients_remove(self.clients@, p as int);
                }
                self.clients.remove(p);
                true
            },
            None => {
                assert(self@.remove(client_id@) =~= self@);
                false
            },
        }
    }

    /// Tells of every client once.
    pub fn get_client_list(&self) -> (list: Vec<TcpClientInfo>)
        requires
            self.wf(),
        ensures
            is_listing(self@, info_models(list@)),
    {
        let mut list: Vec<TcpClientInfo> = Vec::new();
        let mut i: usize = 0;
        while i < self.clients.len()
            invariant
                i <= self.clients@.len(),
                list@.len() == i,
                forall|k: int|
                    0 <= k < i ==> (#[trigger] list@[k])@ == info_of(self.clients@[k]@),
            decreases self.clients@.len() - i,
        {
            let client = &self.clients[i];
            list.push(
                TcpClientInfo {
                    client_id: client.client_id.clone(),
                    addr: client.addr.clone(),
                    connected_at: client.connected_at.clone(),
                },
            );
            i = i + 1;
        }
        proof {
            lemma_listing(self.clients@, info_models(list@));
        }
        list
    }

    /// Finds where data for a client goes, or says that nobody goes by that name.
    pub fn send_to_client(&self, client_id: &str, data: Json) -> (found: Result<Delivery, String>)
        requires
            self.wf(),
        ensures
            match found {
                Ok(delivery) => {
                    &&& self@.contains_key(client_id@)
                    &&& delivery.client_id@ == client_id@
                    &&& delivery.sender == self@[client_id@].sender
                    &&& delivery.data == data
                },
                Err(text) => {
                    &&& !self@.contains_key(client_id@)
                    &&& text@ == not_found_text(client_id@)
                },
            },
    {
        match self.position(client_id) {
            Some(p) => Ok(
                Delivery {
                    client_id: client_id.to_owned(),
                    sender: share_sender(&self.clients[p].sender),
                    data,
                },
            ),
            None => Err("Client ".to_owned().concat(client_id).concat(" not found")),
        }
    }
}

/// Every client is found under the name that it goes by.
pub proof fn lemma_found_by_name(manager: &TcpClientManager)
    requires
        manager.wf(),
    ensures
        forall|id: Seq<char>| #[trigger]
            manager@.contains_key(id) ==> manager@[id].client_id == id,
{
    lemma_clients_model(manager.clients@);
}

/// What became of handing a value to a client: nothing is wrong, or `failure` says
/// what is.
pub fn delivery_result(client_id: &str, failure: Option<String>) -> (result: Result<(), String>)
    ensures
        match failure {
            None => result == Ok::<(), String>(()),
            Some(reason) => result matches Err(text) && text@ == not_sent_text(
                client_id@,
                reason@,
            ),
        },
{
    match failure {
        None => Ok(()),
        Some(reason) => Err(
            "Failed to send message to client ".to_owned().concat(client_id).concat(": ").concat(
                reason.as_str(),
            ),
        ),
    }
}

/// A list that goes through distinct clients in order tells of every client once.
proof fn lemma_listing(clients: Seq<TcpClient>, list: Seq<InfoModel>)
    requires
        all_distinct(clients),
        list.len() == clients.len(),
        forall|k: int|
            0 <= k < list.len() ==> #[trigger] list[k] == info_of(clients[k]@),
    ensures
        is_listing(clients_model(clients), list),
{
    lemma_clients_model(clients);
    let model = clients_model(clients);
    assert forall|i: int| 0 <= i < list.len() implies model.contains_key(
        (#[trigger] list[i]).client_id,
    ) && list[i] == info_of(model[list[i].client_id]) by {
        assert(model.contains_key(clients[i].client_id@));
    }
    assert forall|i: int, j: int| 0 <= i < j < list.len() implies (#[trigger] list[i]).client_id
        != (#[trigger] list[j]).client_id by {
        assert(clients[i].client_id@ != clients[j].client_id@);
    }
    assert forall|id: Seq<char>| #[trigger] model.contains_key(id) implies exists|i: int|
        0 <= i < list.len() && (#[trigger] list[i]).client_id == id by {
        let i = choose|i: int| 0 <= i < clients.len() && (#[trigger] clients[i]).client_id@ == id;
        assert(list[i].client_id == id);
    }
    let names = Seq::new(list.len(), |i: int| list[i].client_id);
    assert(names.no_duplicates());
    names.unique_seq_to_set();
    assert(names.to_set() =~= model.dom()) by {
        assert forall|id: Seq<char>| names.to_set().contains(id) == model.dom().contains(id) by {
            if model.contains_key(id) {
                let i = choose|i: int| 0 <= i < list.len() && (#[trigger] list[i]).client_id == id;
                assert(names[i] == id);
            }
        }
    }
}

} // verus!
