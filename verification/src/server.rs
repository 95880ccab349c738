//! The device registry: the server's authoritative map from session identity
//! to the live session's outbound queue and last-known device metadata.
//!
//! A session id is a 128-bit value minted by the server at accept time; it is
//! the sole key of the registry and has no relationship to anything the
//! device sends. The registry holds at most one entry per id and never
//! reuses an id; see [`lemma_registry_exclusive`].

use vstd::prelude::*;

use crate::dispatch::{ServerEvent, ServerEventV};
use crate::protocol::{
    spec_compatible, unknown_device_info, BuiltInfo, BuiltInfoV, ClientIntroductionV,
    ClientMessage, DeviceInfo, DeviceInfoV, Message, MessageV, ServerMessage, ServerMessageV,
};

verus! {

/// Why routing a message to a session failed.
#[derive(Clone, Copy, Debug, PartialEq, Eq, Structural)]
pub enum SendError {
    /// No entry exists for the addressed session id.
    ClientNotFound,
    /// The entry exists but its writer has stopped draining the queue.
    SendChannel,
    /// A lock around the registry was observed in an unusable state.
    /// The registry itself never produces this; code that wraps the registry
    /// in a lock maps a poisoned lock to it.
    Deadlock,
}

/// One registry entry: a live session and what the server knows about the
/// device behind it.
#[derive(Debug, PartialEq, Eq)]
pub struct ServerClient {
    /// The server-minted session id.
    pub id: u128,
    /// The build the device reported in its `Hello`, once it has.
    pub pdtcore_built_info: Option<BuiltInfo>,
    /// The metadata the device reported, once it has.
    pub device_info: Option<DeviceInfo>,
    /// Messages enqueued for the session's writer, oldest first.
    pub outbound: Vec<Message>,
    /// Whether the session's writer still drains the queue.
    pub channel_open: bool,
}

/// The mathematical value of a [`ServerClient`].
#[verifier::ext_equal]
pub struct ServerClientV {
    pub id: u128,
    pub pdtcore_built_info: Option<BuiltInfoV>,
    pub device_info: Option<DeviceInfoV>,
    pub outbound: Seq<MessageV>,
    pub channel_open: bool,
}

impl View for ServerClient {
    type V = ServerClientV;

    open spec fn view(&self) -> ServerClientV {
        ServerClientV {
            id: self.id,
            pdtcore_built_info: self.pdtcore_built_info.deep_view(),
            device_info: self.device_info.deep_view(),
            outbound: self.outbound.deep_view(),
            channel_open: self.channel_open,
        }
    }
}

impl DeepView for ServerClient {
    type V = ServerClientV;

    open spec fn deep_view(&self) -> ServerClientV {
        self.view()
    }
}

/// A freshly registered entry: no metadata yet, an empty queue, a live
/// writer.
pub open spec fn init_entry(id: u128) -> ServerClientV {
    ServerClientV {
        id,
        pdtcore_built_info: None,
        device_info: None,
        outbound: Seq::empty(),
        channel_open: true,
    }
}

/// One row of the read-only registry snapshot handed to the admin-facing
/// collaborator: a session id and the device metadata reported so far.
#[derive(Debug, PartialEq, Eq)]
pub struct Client {
    pub id: u128,
    pub device_info: DeviceInfo,
}

/// The mathematical value of a [`Client`].
#[verifier::ext_equal]
pub struct ClientV {
    pub id: u128,
    pub device_info: DeviceInfoV,
}

impl View for Client {
    type V = ClientV;

    open spec fn view(&self) -> ClientV {
        ClientV { id: self.id, device_info: self.device_info@ }
    }
}

impl DeepView for Client {
    type V = ClientV;

    open spec fn deep_view(&self) -> ClientV {
        self.view()
    }
}

/// The server's registry state: the live entries and the log of every id
/// ever handed out.
pub struct Server {
    clients: Vec<ServerClient>,
    client_ids: Vec<u128>,
}

/// The mathematical value of a [`Server`].
#[verifier::ext_equal]
pub struct ServerV {
    /// The live entries, in registration order.
    pub clients: Seq<ServerClientV>,
    /// Every id ever registered, in registration order; ids are never
    /// removed from this log, which is how the registry never reuses one.
    pub client_ids: Seq<u128>,
}

impl View for Server {
    type V = ServerV;

    closed spec fn view(&self) -> ServerV {
        ServerV { clients: self.clients.deep_view(), client_ids: self.client_ids@ }
    }
}

impl ServerV {
    /// Whether a live entry exists for `id`.
    pub open spec fn id_registered(&self, id: u128) -> bool {
        exists|i: int| 0 <= i < self.clients.len() && self.clients[i].id == id
    }

    /// Whether `id` was ever handed out.
    pub open spec fn id_seen(&self, id: u128) -> bool {
        self.client_ids.contains(id)
    }

    /// The position of the live entry for `id`.
    pub open spec fn index_of(&self, id: u128) -> int {
        choose|i: int| 0 <= i < self.clients.len() && self.clients[i].id == id
    }

    /// The live entry for `id`.
    pub open spec fn entry(&self, id: u128) -> ServerClientV {
        self.clients[self.index_of(id)]
    }

    /// Validity of the registry: at most one live entry per id, and every
    /// live id appears in the log of handed-out ids.
    pub open spec fn wf(&self) -> bool {
        &&& forall|i: int, j: int|
            0 <= i < self.clients.len() && 0 <= j < self.clients.len() && i != j
                ==> self.clients[i].id != self.clients[j].id
        &&& forall|i: int|
            0 <= i < self.clients.len() ==> self.client_ids.contains(#[trigger] self.clients[i].id)
    }
}

/// Registry exclusivity: a well-formed registry holds at most one live entry
/// per session id. Together with the contracts of `register` (which adds the
/// only entry for a fresh id) and `unregister` (which removes it), exactly
/// one entry exists for an id from its registration until its removal.
pub proof fn lemma_registry_exclusive(s: ServerV, id: u128, i: int, j: int)
    requires
        s.wf(),
        0 <= i < s.clients.len(),
        0 <= j < s.clients.len(),
        s.clients[i].id == id,
        s.clients[j].id == id,
    ensures
        i == j,
{
}

/// Exactly one entry: in a well-formed registry, a registered id is held by
/// the entry at `index_of` and by no other. `register` establishes
/// `id_registered` for a fresh id and `unregister` ends it, so exactly one
/// entry exists for an id from its registration until its removal.
pub proof fn lemma_exactly_one_entry(s: ServerV, id: u128)
    requires
        s.wf(),
        s.id_registered(id),
    ensures
        0 <= s.index_of(id) < s.clients.len(),
        s.clients[s.index_of(id)].id == id,
        forall|i: int|
            0 <= i < s.clients.len() && s.clients[i].id == id ==> i == s.index_of(id),
{
    assert forall|i: int|
        0 <= i < s.clients.len() && s.clients[i].id == id implies i == s.index_of(id) by {
        lemma_registry_exclusive(s, id, i, s.index_of(id));
    }
}

/// In a well-formed registry, an index whose entry holds `id` is the index
/// that `index_of` denotes, and `entry` is the entry there.
proof fn lemma_entry_at(s: ServerV, id: u128, i: int)
    requires
        s.wf(),
        0 <= i < s.clients.len(),
        s.clients[i].id == id,
    ensures
        s.id_registered(id),
        s.index_of(id) == i,
        s.entry(id) == s.clients[i],
{
    assert(s.id_registered(id));
    lemma_registry_exclusive(s, id, i, s.index_of(id));
}

/// Relies on `ulid::Ulid::generate`: a fresh 128-bit identifier minted from
/// the current time and randomness. Nothing is assumed of its value.
#[verifier::external_body]
fn new_session_id() -> (id: u128) {
    ulid::Ulid::generate().0
}

fn ids_contain(ids: &Vec<u128>, id: u128) -> (r: bool)
    ensures
        r == ids@.contains(id),
{
    let n = ids.len();
    let mut k: usize = 0;
    while k < n
        invariant
            k <= n,
            n == ids@.len(),
            forall|j: int| 0 <= j < k ==> ids@[j] != id,
        decreases n - k,
    {
        if ids[k] == id {
            return true;
        }
        k = k + 1;
    }
    assert(!ids@.contains(id));
    false
}

impl Default for Server {
    /// An empty registry: no live entries, no ids handed out.
    fn default() -> (r: Self)
        ensures
            r@.wf(),
            r@.clients == Seq::<ServerClientV>::empty(),
            r@.client_ids == Seq::<u128>::empty(),
    {
        let r = Server { clients: Vec::new(), client_ids: Vec::new() };
        proof {
            assert(r@.clients =~= Seq::<ServerClientV>::empty());
            assert(r@.client_ids =~= Seq::<u128>::empty());
        }
        r
    }
}

impl Server {
    /// The position of the live entry for `id`, if one exists.
    fn find(&self, id: u128) -> (r: Option<usize>)
        requires
            self@.wf(),
        ensures
            match r {
                Some(k) => self@.id_registered(id) && k == self@.index_of(id) && k
                    < self@.clients.len(),
                None => !self@.id_registered(id),
            },
    {
        let n = self.clients.len();
        let mut k: usize = 0;
        while k < n
            invariant
                k <= n,
                n == self@.clients.len(),
                self@.wf(),
                forall|j: int| 0 <= j < k ==> self@.clients[j].id != id,
            decreases n - k,
        {
            if self.clients[k].id == id {
                proof {
                    assert(self@.clients[k as int].id == id);
                    lemma_registry_exclusive(self@, id, k as int, self@.index_of(id));
                }
                return Some(k);
            }
            k = k + 1;
        }
        None
    }

    /// Inserts a new entry for `id` with empty metadata, unless `id` was
    /// ever handed out before, in which case nothing changes. Called once
    /// per accepted connection, before the session's writer starts
    /// draining.
    pub fn register(&mut self, id: u128) -> (r: bool)
        requires
            old(self)@.wf(),
        ensures
            final(self)@.wf(),
            r == !old(self)@.id_seen(id),
            r ==> final(self)@.clients == old(self)@.clients.push(init_entry(id))
                && final(self)@.client_ids == old(self)@.client_ids.push(id),
            r ==> final(self)@.id_registered(id) && final(self)@.index_of(id) == old(
                self,
            )@.clients.len() && final(self)@.entry(id) == init_entry(id),
            !r ==> *final(self) == *old(self),
    {
        if ids_contain(&self.client_ids, id) {
            return false;
        }
        self.client_ids.push(id);
        let entry = ServerClient {
            id,
            pdtcore_built_info: None,
            device_info: None,
            outbound: Vec::new(),
            channel_open: true,
        };
        proof {
            assert(entry@ =~~= init_entry(id));
        }
        self.clients.push(entry);
        proof {
            let n = old(self)@.clients.len() as int;
            assert(self@.clients =~~= old(self)@.clients.push(init_entry(id)));
            assert(self@.client_ids =~= old(self)@.client_ids.push(id));
            assert forall|i: int, j: int|
                0 <= i < self@.clients.len() && 0 <= j < self@.clients.len() && i
                    != j implies self@.clients[i].id != self@.clients[j].id by {
                if i < n && j < n {
                } else if i == n {
                    assert(old(self)@.client_ids.contains(old(self)@.clients[j].id));
                } else {
                    assert(old(self)@.client_ids.contains(old(self)@.clients[i].id));
                }
            }
            assert forall|i: int| 0 <= i < self@.clients.len() implies self@.client_ids.contains(
                #[trigger] self@.clients[i].id,
            ) by {
                if i < n {
                    assert(old(self)@.client_ids.contains(old(self)@.clients[i].id));
                    let k = choose|k: int|
                        0 <= k < old(self)@.client_ids.len() && old(self)@.client_ids[k]
                            == old(self)@.clients[i].id;
                    assert(self@.client_ids[k] == self@.clients[i].id);
                } else {
                    assert(self@.client_ids[old(self)@.client_ids.len() as int]
                        == self@.clients[i].id);
                }
            }
            lemma_entry_at(self@, id, n);
        }
        true
    }

    /// Mints a session id at accept time and registers it. Returns the id,
    /// or `None` in the unlikely event that the minted id was seen before,
    /// in which case the registry is unchanged.
    pub fn accept_session(&mut self) -> (r: Option<u128>)
        requires
            old(self)@.wf(),
        ensures
            final(self)@.wf(),
            match r {
                Some(id) => !old(self)@.id_seen(id)
                    && final(self)@.clients == old(self)@.clients.push(init_entry(id))
                    && final(self)@.client_ids == old(self)@.client_ids.push(id),
                None => *final(self) == *old(self),
            },
    {
        let id = new_session_id();
        if self.register(id) {
            Some(id)
        } else {
            None
        }
    }

    /// Removes the entry for `id`; idempotent. The log of handed-out ids is
    /// untouched, so the id can never be registered again.
    pub fn unregister(&mut self, id: u128)
        requires
            old(self)@.wf(),
        ensures
            final(self)@.wf(),
            final(self)@.client_ids == old(self)@.client_ids,
            !final(self)@.id_registered(id),
            old(self)@.id_registered(id) ==> final(self)@.clients == old(self)@.clients.remove(
                old(self)@.index_of(id),
            ),
            !old(self)@.id_registered(id) ==> *final(self) == *old(self),
    {
        match self.find(id) {
            Some(k) => {
                self.clients.remove(k);
                proof {
                    let prev = old(self)@.clients;
                    assert(self@.clients =~~= prev.remove(k as int));
                    assert forall|i: int|
                        0 <= i < self@.clients.len() implies self@.client_ids.contains(
                        #[trigger] self@.clients[i].id,
                    ) by {
                        if i < k {
                            assert(self@.clients[i] == prev[i]);
                        } else {
                            assert(self@.clients[i] == prev[i + 1]);
                        }
                    }
                    assert forall|i: int|
                        0 <= i < self@.clients.len() implies #[trigger] self@.clients[i].id
                        != id by {
                        if i < k {
                            assert(self@.clients[i] == prev[i]);
                            lemma_registry_exclusive(old(self)@, id, k as int, k as int);
                        } else {
                            assert(self@.clients[i] == prev[i + 1]);
                        }
                    }
                }
            },
            None => {},
        }
    }

    /// Records the build the device reported against its entry; leaves the
    /// registry unchanged when the id is absent (a race with `unregister`
    /// is no fault). Returns whether an entry was updated.
    pub fn update_built_info(&mut self, id: u128, b: BuiltInfo) -> (r: bool)
        requires
            old(self)@.wf(),
        ensures
            final(self)@.wf(),
            final(self)@.client_ids == old(self)@.client_ids,
            r == old(self)@.id_registered(id),
            r ==> final(self)@.clients == old(self)@.clients.update(
                old(self)@.index_of(id),
                ServerClientV {
                    pdtcore_built_info: Some(b@),
                    ..old(self)@.entry(id)
                },
            ),
            r ==> final(self)@.index_of(id) == old(self)@.index_of(id) && final(self)@.entry(id)
                == (ServerClientV { pdtcore_built_info: Some(b@), ..old(self)@.entry(id) }),
            !r ==> *final(self) == *old(self),
    {
        match self.find(id) {
            Some(k) => {
                let mut e = self.clients.remove(k);
                e.pdtcore_built_info = Some(b);
                self.clients.insert(k, e);
                proof {
                    self.lemma_entry_update(*old(self), k as int);
                    lemma_entry_at(self@, id, k as int);
                }
                true
            },
            None => false,
        }
    }

    /// Records the metadata the device reported against its entry; leaves
    /// the registry unchanged when the id is absent. Returns whether an
    /// entry was updated.
    pub fn update_device_info(&mut self, id: u128, info: DeviceInfo) -> (r: bool)
        requires
            old(self)@.wf(),
        ensures
            final(self)@.wf(),
            final(self)@.client_ids == old(self)@.client_ids,
            r == old(self)@.id_registered(id),
            r ==> final(self)@.clients == old(self)@.clients.update(
                old(self)@.index_of(id),
                ServerClientV { device_info: Some(info@), ..old(self)@.entry(id) },
            ),
            r ==> final(self)@.index_of(id) == old(self)@.index_of(id) && final(self)@.entry(id)
                == (ServerClientV { device_info: Some(info@), ..old(self)@.entry(id) }),
            !r ==> *final(self) == *old(self),
    {
        match self.find(id) {
            Some(k) => {
                let mut e = self.clients.remove(k);
                e.device_info = Some(info);
                self.clients.insert(k, e);
                proof {
                    self.lemma_entry_update(*old(self), k as int);
                    lemma_entry_at(self@, id, k as int);
                }
                true
            },
            None => false,
        }
    }

    /// Enqueues a message on the addressed session's outbound queue. Fails
    /// with `ClientNotFound` when no entry exists for the id, and with
    /// `SendChannel` when the entry's writer has already stopped; in both
    /// failure cases the registry is unchanged.
    pub fn send(&mut self, to: u128, message: Message) -> (r: Result<(), SendError>)
        requires
            old(self)@.wf(),
        ensures
            final(self)@.wf(),
            final(self)@.client_ids == old(self)@.client_ids,
            match r {
                Ok(()) => old(self)@.id_registered(to) && old(self)@.entry(to).channel_open
                    && final(self)@.clients == old(self)@.clients.update(
                    old(self)@.index_of(to),
                    ServerClientV {
                        outbound: old(self)@.entry(to).outbound.push(message@),
                        ..old(self)@.entry(to)
                    },
                ) && final(self)@.index_of(to) == old(self)@.index_of(to) && final(self)@.entry(to)
                    == (ServerClientV {
                    outbound: old(self)@.entry(to).outbound.push(message@),
                    ..old(self)@.entry(to)
                }),
                Err(SendError::ClientNotFound) => !old(self)@.id_registered(to) && *final(self)
                    == *old(self),
                Err(SendError::SendChannel) => old(self)@.id_registered(to)
                    && !old(self)@.entry(to).channel_open && *final(self) == *old(self),
                Err(SendError::Deadlock) => false,
            },
    {
        match self.find(to) {
            Some(k) => {
                if !self.clients[k].channel_open {
                    return Err(SendError::SendChannel);
                }
                let mut e = self.clients.remove(k);
                e.outbound.push(message);
                self.clients.insert(k, e);
                proof {
                    assert(self.clients@[k as int]@.outbound =~= old(self)@.entry(
                        to,
                    ).outbound.push(message@));
                    self.lemma_entry_update(*old(self), k as int);
                    lemma_entry_at(self@, to, k as int);
                }
                Ok(())
            },
            None => Err(SendError::ClientNotFound),
        }
    }

    /// Marks the session's writer as gone: later `send`s to this id fail
    /// with `SendChannel` until the entry is unregistered. Returns whether
    /// an entry was updated.
    pub fn close_channel(&mut self, id: u128) -> (r: bool)
        requires
            old(self)@.wf(),
        ensures
            final(self)@.wf(),
            final(self)@.client_ids == old(self)@.client_ids,
            r == old(self)@.id_registered(id),
            r ==> final(self)@.clients == old(self)@.clients.update(
                old(self)@.index_of(id),
                ServerClientV { channel_open: false, ..old(self)@.entry(id) },
            ),
            r ==> final(self)@.index_of(id) == old(self)@.index_of(id) && final(self)@.entry(id)
                == (ServerClientV { channel_open: false, ..old(self)@.entry(id) }),
            !r ==> *final(self) == *old(self),
    {
        match self.find(id) {
            Some(k) => {
                let mut e = self.clients.remove(k);
                e.channel_open = false;
                self.clients.insert(k, e);
                proof {
                    self.lemma_entry_update(*old(self), k as int);
                    lemma_entry_at(self@, id, k as int);
                }
                true
            },
            None => false,
        }
    }

    /// Hands out everything queued for the session, oldest first, and
    /// leaves its queue empty. The session's writer drains the queue
    /// through this.
    pub fn drain_outbound(&mut self, id: u128) -> (r: Vec<Message>)
        requires
            old(self)@.wf(),
        ensures
            final(self)@.wf(),
            final(self)@.client_ids == old(self)@.client_ids,
            old(self)@.id_registered(id) ==> r.deep_view() == old(self)@.entry(id).outbound
                && final(self)@.clients == old(self)@.clients.update(
                old(self)@.index_of(id),
                ServerClientV { outbound: Seq::empty(), ..old(self)@.entry(id) },
            ) && final(self)@.index_of(id) == old(self)@.index_of(id) && final(self)@.entry(id)
                == (ServerClientV { outbound: Seq::empty(), ..old(self)@.entry(id) }),
            !old(self)@.id_registered(id) ==> r.deep_view() == Seq::<MessageV>::empty()
                && *final(self) == *old(self),
    {
        match self.find(id) {
            Some(k) => {
                let mut e = self.clients.remove(k);
                let mut out: Vec<Message> = Vec::new();
                core::mem::swap(&mut out, &mut e.outbound);
                self.clients.insert(k, e);
                proof {
                    assert(self.clients@[k as int]@.outbound =~= Seq::<MessageV>::empty());
                    self.lemma_entry_update(*old(self), k as int);
                    lemma_entry_at(self@, id, k as int);
                }
                out
            },
            None => {
                let out: Vec<Message> = Vec::new();
                proof {
                    assert(out.deep_view() =~= Seq::<MessageV>::empty());
                }
                out
            },
        }
    }

    /// Every id ever handed out, in registration order. Ids of sessions
    /// already unregistered stay listed.
    pub fn get_client_ids(&self) -> (r: Vec<u128>)
        ensures
            r@ == self@.client_ids,
    {
        let n = self.client_ids.len();
        let mut out: Vec<u128> = Vec::new();
        let mut k: usize = 0;
        while k < n
            invariant
                k <= n,
                n == self@.client_ids.len(),
                out@ == self@.client_ids.take(k as int),
            decreases n - k,
        {
            out.push(self.client_ids[k]);
            proof {
                assert(out@ =~= self@.client_ids.take(k as int + 1));
            }
            k = k + 1;
        }
        proof {
            assert(self@.client_ids.take(n as int) =~= self@.client_ids);
        }
        out
    }

    /// A read-only snapshot for the admin-facing collaborator: one row per
    /// live entry, in registration order, with `"unknown"` device metadata
    /// where the device has not reported yet. No channel handles leave the
    /// registry.
    pub fn get_clients(&self) -> (r: Vec<Client>)
        requires
            self@.wf(),
        ensures
            r.deep_view().len() == self@.clients.len(),
            forall|i: int|
                0 <= i < self@.clients.len() ==> (#[trigger] r.deep_view()[i]).id
                    == self@.clients[i].id && r.deep_view()[i].device_info == (
                match self@.clients[i].device_info {
                    Some(d) => d,
                    None => unknown_device_info(),
                }),
    {
        let n = self.clients.len();
        let mut out: Vec<Client> = Vec::new();
        let mut k: usize = 0;
        while k < n
            invariant
                k <= n,
                n == self@.clients.len(),
                out@.len() == k,
                forall|i: int|
                    0 <= i < k ==> (#[trigger] out.deep_view()[i]).id == self@.clients[i].id
                        && out.deep_view()[i].device_info == (
                    match self@.clients[i].device_info {
                        Some(d) => d,
                        None => unknown_device_info(),
                    }),
            decreases n - k,
        {
            let device_info = match &self.clients[k].device_info {
                Some(d) => copy_device_info(d),
                None => DeviceInfo::default(),
            };
            let row = Client { id: self.clients[k].id, device_info };
            proof {
                assert(row@.id == self@.clients[k as int].id);
                assert(row@.device_info == (match self@.clients[k as int].device_info {
                    Some(d) => d,
                    None => unknown_device_info(),
                }));
            }
            let ghost prev = out.deep_view();
            out.push(row);
            proof {
                assert(out.deep_view() =~= prev.push(row@));
            }
            k = k + 1;
        }
        out
    }

    /// After a remove-modify-insert of the entry at `k`, the registry's
    /// value is the old one with position `k` updated, and validity is
    /// preserved whenever the modification keeps the entry's id.
    proof fn lemma_entry_update(&self, prev: Server, k: int)
        requires
            prev@.wf(),
            0 <= k < prev@.clients.len(),
            self@.clients.len() == prev@.clients.len(),
            self@.clients[k].id == prev@.clients[k].id,
            forall|i: int|
                0 <= i < prev@.clients.len() && i != k ==> self@.clients[i] == prev@.clients[i],
            self@.client_ids == prev@.client_ids,
        ensures
            self@.wf(),
            self@.clients == prev@.clients.update(k, self@.clients[k]),
    {
        assert(self@.clients =~= prev@.clients.update(k, self@.clients[k]));
        assert forall|i: int|
            0 <= i < self@.clients.len() implies self@.client_ids.contains(
            #[trigger] self@.clients[i].id,
        ) by {
            assert(self@.clients[i].id == prev@.clients[i].id);
            assert(prev@.client_ids.contains(prev@.clients[i].id));
        }
    }
}

/// The dispatcher's reply to a handshake: a request for device metadata
/// when the local build and the introduced build are compatible, a goodbye
/// otherwise.
pub open spec fn hello_reply(local: BuiltInfoV, intro: ClientIntroductionV) -> MessageV {
    if spec_compatible(local, intro.pdtcore_built_info) {
        MessageV::Client(ClientMessage::RequestDeviceInfo)
    } else {
        MessageV::Client(ClientMessage::Goodbye)
    }
}

impl Server {
    /// The dispatcher's handling of one inbound event, `local` being the
    /// build the server itself runs.
    ///
    /// A `Hello` records the introduced build against the session and
    /// enqueues the reply of [`hello_reply`]: an incompatible session is
    /// sent a goodbye and is asked nothing further, a compatible one is
    /// asked for its device metadata. A `DeviceInfo` records the reported
    /// metadata. Everything else — a goodbye of a leaving session, a
    /// command that only a device should ever receive, a reader's failure
    /// report — changes nothing. An event for an id that has no live entry
    /// (a race with `unregister`) changes nothing and does not fail.
    pub fn handle_event(&mut self, event: ServerEvent, local: &BuiltInfo)
        requires
            old(self)@.wf(),
        ensures
            final(self)@.wf(),
            final(self)@.client_ids == old(self)@.client_ids,
            match event@ {
                ServerEventV::IncomingMessage(
                    (id, MessageV::Server(ServerMessageV::Hello(intro))),
                ) => {
                    if old(self)@.id_registered(id) {
                        final(self)@.clients == old(self)@.clients.update(
                            old(self)@.index_of(id),
                            ServerClientV {
                                pdtcore_built_info: Some(intro.pdtcore_built_info),
                                outbound: old(self)@.entry(id).outbound.push(
                                    hello_reply(local@, intro),
                                ),
                                ..old(self)@.entry(id)
                            },
                        )
                    } else {
                        *final(self) == *old(self)
                    }
                },
                ServerEventV::IncomingMessage(
                    (id, MessageV::Server(ServerMessageV::DeviceInfo(info))),
                ) => {
                    if old(self)@.id_registered(id) {
                        final(self)@.clients == old(self)@.clients.update(
                            old(self)@.index_of(id),
                            ServerClientV { device_info: Some(info), ..old(self)@.entry(id) },
                        )
                    } else {
                        *final(self) == *old(self)
                    }
                },
                _ => *final(self) == *old(self),
            },
    {
        match event {
            ServerEvent::IncomingMessage((id, Message::Server(ServerMessage::Hello(intro)))) => {
                let compatible = local.compatible(&intro.pdtcore_built_info);
                let reply = if compatible {
                    Message::Client(ClientMessage::RequestDeviceInfo)
                } else {
                    Message::Client(ClientMessage::Goodbye)
                };
                match self.find(id) {
                    Some(k) => {
                        let mut e = self.clients.remove(k);
                        e.pdtcore_built_info = Some(intro.pdtcore_built_info);
                        e.outbound.push(reply);
                        self.clients.insert(k, e);
                        proof {
                            assert(self.clients@[k as int]@.outbound =~= old(self)@.entry(
                                id,
                            ).outbound.push(hello_reply(local@, intro@)));
                            self.lemma_entry_update(*old(self), k as int);
                        }
                    },
                    None => {},
                }
            },
            ServerEvent::IncomingMessage((id, Message::Server(ServerMessage::DeviceInfo(info)))) => {
                match self.find(id) {
                    Some(k) => {
                        let mut e = self.clients.remove(k);
                        e.device_info = Some(info);
                        self.clients.insert(k, e);
                        proof {
                            self.lemma_entry_update(*old(self), k as int);
                        }
                    },
                    None => {},
                }
            },
            _ => {},
        }
    }
}

/// A fresh string copy of device metadata, equal in value.
fn copy_device_info(d: &DeviceInfo) -> (r: DeviceInfo)
    ensures
        r@ == d@,
{
    let r = DeviceInfo {
        name: d.name.clone(),
        os: d.os.clone(),
        os_version: d.os_version.clone(),
        uptime: d.uptime.clone(),
    };
    proof {
        assert(r@ =~= d@);
    }
    r
}

} // verus!
