//! The registry: every network the registrar knows, in the order in which
//! they were registered.
//!
//! The networks are kept in a `ConcurrentVec`. Every change goes through an
//! exclusive reference to the registry, so that what a shared reference sees
//! stays as it is.

use orx_concurrent_vec::ConcurrentVec;
use vstd::prelude::*;
use vstd::seq_lib::lemma_concat_associative;

use crate::server::types::{clients_view, Client, ClientView, Registration, RegistrationView};
use crate::shared::addr::{bytes_equal, SockAddr};
use crate::shared::seqs::{
    first_index, lemma_filter_empty, lemma_filter_step, lemma_first_index, lemma_first_index_is,
    lemma_first_index_none,
};
use crate::shared::wire::{
    flag_byte, get_response_head, get_response_round_trip, lemma_blocks_grow,
    push_member_block, spec_member_blocks, GetResponseView, MemberView,
};
use crate::{
    ServerErrorResponses, ServerErrorView, ServerMethods, BLOCK_SIZE, HEARTBEAT_EXPIRY,
    UDP_BUFFER_SIZE,
};

verus! {

/// The networks that the registrar knows.
#[verifier::external_body]
pub struct Registry {
    inner: ConcurrentVec<Registration>,
}

/// The networks in a registry, in the order in which they were registered.
pub uninterp spec fn registry_contents(registry: Registry) -> Seq<RegistrationView>;

/// The number of networks that a registry can hold.
pub uninterp spec fn registry_limit(registry: Registry) -> nat;

impl View for Registry {
    type V = Seq<RegistrationView>;

    open spec fn view(&self) -> Seq<RegistrationView> {
        registry_contents(*self)
    }
}

/// Calls `ConcurrentVec::new`: a vector without elements.
#[verifier::external_body]
fn store_new() -> (registry: Registry)
    ensures
        registry_contents(registry) == Seq::<RegistrationView>::empty(),
{
    Registry { inner: ConcurrentVec::new() }
}

/// Calls `ConcurrentVec::len`: the number of elements pushed.
#[verifier::external_body]
fn store_len(registry: &Registry) -> (n: usize)
    ensures
        n == registry_contents(*registry).len(),
{
    registry.inner.len()
}

/// Calls `ConcurrentVec::maximum_capacity`: the length beyond which `push`
/// panics.
#[verifier::external_body]
fn store_limit(registry: &Registry) -> (n: usize)
    ensures
        n == registry_limit(*registry),
{
    registry.inner.maximum_capacity()
}

/// Calls `ConcurrentVec::get` and `ConcurrentElement::map` to copy the id of
/// the element at `i`; `None` where `i` is not below the length.
#[verifier::external_body]
fn store_net_id(registry: &Registry, i: usize) -> (id: Option<String>)
    ensures
        i < registry_contents(*registry).len() ==> id is Some && id.unwrap()@ == registry_contents(
            *registry,
        )[i as int].net_id,
        i >= registry_contents(*registry).len() ==> id is None,
{
    registry.inner.get(i).map(|element| element.map(|r| r.net_id.clone()))
}

/// Calls `ConcurrentVec::get_cloned`: a copy of the element at `i`; `None`
/// where `i` is not below the length.
#[verifier::external_body]
fn store_get(registry: &Registry, i: usize) -> (r: Option<Registration>)
    ensures
        i < registry_contents(*registry).len() ==> r is Some && r.unwrap()@ == registry_contents(
            *registry,
        )[i as int],
        i >= registry_contents(*registry).len() ==> r is None,
{
    registry.inner.get_cloned(i)
}

/// Calls `ConcurrentVec::push`: the element is added at the end. The call
/// panics where the length has reached the maximum capacity.
#[verifier::external_body]
fn store_push(registry: &mut Registry, registration: Registration)
    requires
        registry_contents(*old(registry)).len() < registry_limit(*old(registry)),
    ensures
        registry_contents(*final(registry)) == registry_contents(*old(registry)).push(
            registration@,
        ),
{
    registry.inner.push(registration);
}

/// Calls `Index::index` on the `ConcurrentVec` and `ConcurrentElement::set`:
/// the element at `i` is replaced. The first panics where `i` is not below
/// the length.
#[verifier::external_body]
fn store_set(registry: &mut Registry, i: usize, registration: Registration)
    requires
        i < registry_contents(*old(registry)).len(),
    ensures
        registry_contents(*final(registry)) == registry_contents(*old(registry)).update(
            i as int,
            registration@,
        ),
{
    registry.inner[i].set(registration);
}

/// The network has the id `id`.
pub open spec fn spec_has_id(id: Seq<char>) -> spec_fn(RegistrationView) -> bool {
    |r: RegistrationView| r.net_id == id
}

/// The place of the network with the id `id`.
pub open spec fn spec_find(registry: Seq<RegistrationView>, id: Seq<char>) -> Option<int> {
    first_index(registry, spec_has_id(id))
}

/// No two networks have the same id.
pub open spec fn spec_unique_ids(registry: Seq<RegistrationView>) -> bool {
    forall|i: int, j: int|
        0 <= i < j < registry.len() ==> (#[trigger] registry[i]).net_id != (
        #[trigger] registry[j]).net_id
}

/// The text with which a full registry refuses a network.
pub open spec fn spec_registry_full_text() -> Seq<char> {
    "Registry is full"@
}

/// The text with which a network is refused that a GET response cannot list.
pub open spec fn spec_too_many_clients_text() -> Seq<char> {
    "Max number of clients reached"@
}

/// Whether a network can be registered, and why not.
pub open spec fn spec_register_result(
    registry: Seq<RegistrationView>,
    limit: nat,
    registration: RegistrationView,
) -> Result<(), ServerErrorView> {
    if spec_find(registry, registration.net_id) is Some {
        Err(ServerErrorView::ID_EXISTS)
    } else if registry.len() >= limit {
        Err(ServerErrorView::GENERAL_ERROR(spec_registry_full_text()))
    } else {
        Ok(())
    }
}

/// The registry after an attempt to register a network.
pub open spec fn spec_register(
    registry: Seq<RegistrationView>,
    limit: nat,
    registration: RegistrationView,
) -> Seq<RegistrationView> {
    if spec_register_result(registry, limit, registration) is Ok {
        registry.push(registration)
    } else {
        registry
    }
}

/// The member announced itself with this address and this IV.
pub open spec fn spec_is_client(payload: Seq<u8>, iv: Seq<u8>) -> spec_fn(ClientView) -> bool {
    |c: ClientView| c.client_sock_addr == payload && c.iv == iv
}

/// A network after a heartbeat: the member that announced itself with the
/// same address and IV is refreshed; where there is none, the sender is added
/// as a member.
pub open spec fn spec_heartbeat_registration(
    registration: RegistrationView,
    src: SockAddr,
    payload: Seq<u8>,
    iv: Seq<u8>,
    now: i64,
) -> RegistrationView {
    let clients = match first_index(registration.clients, spec_is_client(payload, iv)) {
        Some(i) => registration.clients.update(
            i,
            ClientView { last_heart_beat: now, ..registration.clients[i] },
        ),
        None => registration.clients.push(
            ClientView { client_sock_addr: payload, last_heart_beat: now, iv, src },
        ),
    };
    RegistrationView { clients, last_heart_beat: now, ..registration }
}

/// Whether a heartbeat finds its network.
pub open spec fn spec_heartbeat_result(registry: Seq<RegistrationView>, id: Seq<char>) -> Result<
    (),
    ServerErrorView,
> {
    if spec_find(registry, id) is Some {
        Ok(())
    } else {
        Err(ServerErrorView::ID_DOESNT_EXIST)
    }
}

/// The registry after a heartbeat.
pub open spec fn spec_heartbeat(
    registry: Seq<RegistrationView>,
    id: Seq<char>,
    src: SockAddr,
    payload: Seq<u8>,
    iv: Seq<u8>,
    now: i64,
) -> Seq<RegistrationView> {
    match spec_find(registry, id) {
        Some(i) => registry.update(
            i,
            spec_heartbeat_registration(registry[i], src, payload, iv, now),
        ),
        None => registry,
    }
}

/// The members of a network as a GET response lists them.
pub open spec fn spec_members(clients: Seq<ClientView>) -> Seq<MemberView> {
    clients.map_values(|c: ClientView| MemberView { iv: c.iv, sock_addr: c.client_sock_addr })
}

/// The GET response for a network.
pub open spec fn spec_listing(registration: RegistrationView) -> GetResponseView {
    GetResponseView {
        encrypted: registration.encrypted,
        salt: registration.salt,
        members: spec_members(registration.clients),
    }
}

/// The answer to a GET request for the network `id`: the response that lists
/// its members, or why there is none.
pub open spec fn spec_get(registry: Seq<RegistrationView>, id: Seq<char>) -> Result<
    Seq<u8>,
    ServerErrorView,
> {
    match spec_find(registry, id) {
        None => Err(ServerErrorView::ID_DOESNT_EXIST),
        Some(i) => {
            let listing = spec_listing(registry[i]);
            if listing.encodable() && listing.bytes().len() <= UDP_BUFFER_SIZE {
                Ok(listing.bytes())
            } else {
                Err(ServerErrorView::GENERAL_ERROR(spec_too_many_clients_text()))
            }
        },
    }
}

/// The member was heard of within the expiry time.
pub open spec fn spec_is_alive(now: i64) -> spec_fn(ClientView) -> bool {
    |c: ClientView| now - c.last_heart_beat <= HEARTBEAT_EXPIRY
}

/// A network after a sweep: the members that were not heard of for longer
/// than the expiry time are gone, and the network is marked where it was not
/// heard of for longer than that.
pub open spec fn spec_sweep_registration(
    registration: RegistrationView,
    now: i64,
) -> RegistrationView {
    RegistrationView {
        clients: registration.clients.filter(spec_is_alive(now)),
        invalid: registration.invalid || now - registration.last_heart_beat > HEARTBEAT_EXPIRY,
        ..registration
    }
}

/// The registry after a sweep. No network is removed.
pub open spec fn spec_sweep(registry: Seq<RegistrationView>, now: i64) -> Seq<RegistrationView> {
    registry.map_values(|r: RegistrationView| spec_sweep_registration(r, now))
}

/// The result of an operation as plain values.
pub open spec fn unit_result_view(r: Result<(), ServerErrorResponses>) -> Result<
    (),
    ServerErrorView,
> {
    match r {
        Ok(_) => Ok(()),
        Err(e) => Err(e@),
    }
}

/// The result of an operation that gives bytes, as plain values.
pub open spec fn bytes_result_view(r: Result<Vec<u8>, ServerErrorResponses>) -> Result<
    Seq<u8>,
    ServerErrorView,
> {
    match r {
        Ok(bytes) => Ok(bytes@),
        Err(e) => Err(e@),
    }
}

/// Refreshes the member that announced itself with `payload` and `iv`, or
/// adds the sender as a member.
pub fn heartbeat_registration(
    registration: &mut Registration,
    src: SockAddr,
    payload: Vec<u8>,
    iv: [u8; 16],
    now: i64,
)
    ensures
        final(registration)@ == spec_heartbeat_registration(
            old(registration)@,
            src,
            payload@,
            iv@,
            now,
        ),
{
    let ghost before = registration@;
    let ghost pred = spec_is_client(payload@, iv@);
    registration.last_heart_beat = now;
    let mut i: usize = 0;
    while i < registration.clients.len()
        invariant
            i <= registration.clients@.len(),
            before == old(registration)@,
            registration@ == (RegistrationView { last_heart_beat: now, ..before }),
            pred == spec_is_client(payload@, iv@),
            forall|j: int| 0 <= j < i ==> !pred(#[trigger] before.clients[j]),
        decreases registration.clients@.len() - i,
    {
        let known = &registration.clients[i];
        let same = bytes_equal(known.client_sock_addr.as_slice(), payload.as_slice())
            && bytes_equal(known.iv.as_slice(), iv.as_slice());
        assert(before.clients[i as int] == registration.clients@[i as int]@);
        if same {
            let refreshed = Client {
                client_sock_addr: registration.clients[i].client_sock_addr.clone(),
                last_heart_beat: now,
                iv: registration.clients[i].iv,
                src: registration.clients[i].src,
            };
            proof {
                lemma_first_index_is(before.clients, pred, i as int);
            }
            registration.clients.set(i, refreshed);
            assert(registration@.clients =~= before.clients.update(
                i as int,
                ClientView { last_heart_beat: now, ..before.clients[i as int] },
            ));
            return ;
        }
        i += 1;
    }
    proof {
        lemma_first_index_none(before.clients, pred);
    }
    registration.clients.push(Client::new(payload, now, iv, src));
    assert(registration@.clients =~= before.clients.push(
        ClientView { client_sock_addr: payload@, last_heart_beat: now, iv: iv@, src },
    ));
}

/// Removes the members that were not heard of for longer than the expiry
/// time, and marks the network where it was not heard of for longer than that.
pub fn sweep_registration(registration: &mut Registration, now: i64)
    ensures
        final(registration)@ == spec_sweep_registration(old(registration)@, now),
{
    let ghost before = registration@;
    let ghost pred = spec_is_alive(now);
    let mut kept: Vec<Client> = Vec::new();
    let mut i: usize = 0;
    proof {
        lemma_filter_empty(before.clients, pred);
    }
    while i < registration.clients.len()
        invariant
            i <= registration.clients@.len(),
            registration@ == before,
            pred == spec_is_alive(now),
            clients_view(kept@) == before.clients.take(i as int).filter(pred),
        decreases registration.clients@.len() - i,
    {
        proof {
            lemma_filter_step(before.clients, pred, i as int);
        }
        assert(before.clients[i as int] == registration.clients@[i as int]@);
        let age = now as i128 - registration.clients[i].last_heart_beat as i128;
        if age <= HEARTBEAT_EXPIRY as i128 {
            let copy = registration.clients[i].duplicate();
            assert(clients_view(kept@.push(copy)) =~= clients_view(kept@).push(copy@));
            kept.push(copy);
        }
        i += 1;
    }
    assert(before.clients.take(before.clients.len() as int) =~= before.clients);
    let age = now as i128 - registration.last_heart_beat as i128;
    if age > HEARTBEAT_EXPIRY as i128 {
        registration.invalid = true;
    }
    registration.clients = kept;
}

/// Writes the GET response for a network; `None` where the response cannot
/// list every member or does not fit a datagram.
pub fn listing(registration: &Registration) -> (out: Option<Vec<u8>>)
    ensures
        out is Some <==> spec_listing(registration@).encodable() && spec_listing(
            registration@,
        ).bytes().len() <= UDP_BUFFER_SIZE,
        out matches Some(bytes) ==> bytes@ == spec_listing(registration@).bytes(),
{
    let ghost view = spec_listing(registration@);
    let ghost all = view.members;
    if registration.clients.len() > 255 {
        return None;
    }
    let mut out = get_response_head(
        registration.encrypted,
        registration.clients.len() as u8,
        &registration.salt,
    );
    let ghost head = out@;
    let mut i: usize = 0;
    while i < registration.clients.len()
        invariant
            i <= registration.clients@.len() <= 255,
            all == spec_listing(registration@).members,
            all.len() == registration.clients@.len(),
            view == spec_listing(registration@),
            head.len() == 19,
            head == seq![
                ServerMethods::GET.spec_code(),
                flag_byte(view.encrypted),
                all.len() as u8,
            ] + view.salt,
            out@ == head + spec_member_blocks(all.take(i as int)),
            out@.len() <= UDP_BUFFER_SIZE,
            forall|j: int| 0 <= j < i ==> (#[trigger] all[j]).encodable(),
        decreases registration.clients@.len() - i,
    {
        let client = &registration.clients[i];
        assert(all[i as int] == (MemberView {
            iv: client.iv@,
            sock_addr: client.client_sock_addr@,
        }));
        proof {
            assert(all.take(i + 1).drop_last() =~= all.take(i as int));
            assert(all.take(i + 1).last() == all[i as int]);
            lemma_concat_associative(
                head,
                spec_member_blocks(all.take(i as int)),
                all[i as int].block(),
            );
        }
        if client.client_sock_addr.len() > 255 {
            assert(!all[i as int].encodable());
            return None;
        }
        if out.len() + 1 + BLOCK_SIZE + client.client_sock_addr.len() > UDP_BUFFER_SIZE {
            proof {
                lemma_blocks_grow(all, i + 1);
            }
            return None;
        }
        push_member_block(&mut out, &client.iv, client.client_sock_addr.as_slice());
        i += 1;
    }
    assert(all.take(all.len() as int) =~= all);
    Some(out)
}

impl Registry {
    /// A registry without networks.
    pub fn new() -> (registry: Registry)
        ensures
            registry@ == Seq::<RegistrationView>::empty(),
    {
        store_new()
    }

    /// The number of networks.
    pub fn len(&self) -> (n: usize)
        ensures
            n == self@.len(),
    {
        store_len(self)
    }

    /// A copy of the network at `i`.
    pub fn at(&self, i: usize) -> (r: Option<Registration>)
        ensures
            i < self@.len() ==> r is Some && r.unwrap()@ == self@[i as int],
            i >= self@.len() ==> r is None,
    {
        store_get(self, i)
    }

    /// The place of the network with the id `net_id`.
    pub fn find(&self, net_id: &String) -> (r: Option<usize>)
        ensures
            r is Some <==> spec_find(self@, net_id@) is Some,
            r matches Some(i) ==> spec_find(self@, net_id@) == Some(i as int),
    {
        let n = store_len(self);
        let ghost pred = spec_has_id(net_id@);
        let mut i: usize = 0;
        while i < n
            invariant
                i <= n,
                n == self@.len(),
                pred == spec_has_id(net_id@),
                forall|j: int| 0 <= j < i ==> !pred(#[trigger] self@[j]),
            decreases n - i,
        {
            match store_net_id(self, i) {
                Some(id) => {
                    if id == *net_id {
                        proof {
                            lemma_first_index_is(self@, pred, i as int);
                        }
                        return Some(i);
                    }
                },
                None => {},
            }
            i += 1;
        }
        proof {
            lemma_first_index_none(self@, pred);
        }
        None
    }

    /// Registers a network. Fails with `ID_EXISTS` where a network with the
    /// same id is registered already, and with a general error where the
    /// registry is full. The check and the insertion are one step: of two
    /// registrations of one id, the one that gets hold of the registry first
    /// succeeds.
    pub fn register(&mut self, registration: Registration) -> (r: Result<(), ServerErrorResponses>)
        ensures
            unit_result_view(r) == spec_register_result(
                old(self)@,
                registry_limit(*old(self)),
                registration@,
            ),
            final(self)@ == spec_register(old(self)@, registry_limit(*old(self)), registration@),
            spec_unique_ids(old(self)@) ==> spec_unique_ids(final(self)@),
    {
        if self.find(&registration.net_id).is_some() {
            return Err(ServerErrorResponses::ID_EXISTS);
        }
        if store_len(self) >= store_limit(self) {
            return Err(ServerErrorResponses::GENERAL_ERROR("Registry is full".to_owned()));
        }
        proof {
            lemma_first_index(old(self)@, spec_has_id(registration@.net_id));
        }
        store_push(self, registration);
        Ok(())
    }

    /// Answers a GET request: the response that lists the members of the
    /// network. Fails with `ID_DOESNT_EXIST` where no network has the id, and
    /// with a general error where the response cannot list every member.
    pub fn get(&self, net_id: &String) -> (r: Result<Vec<u8>, ServerErrorResponses>)
        ensures
            bytes_result_view(r) == spec_get(self@, net_id@),
    {
        proof {
            lemma_first_index(self@, spec_has_id(net_id@));
        }
        match self.find(net_id) {
            None => Err(ServerErrorResponses::ID_DOESNT_EXIST),
            Some(i) => match store_get(self, i) {
                Some(registration) => match listing(&registration) {
                    Some(bytes) => Ok(bytes),
                    None => Err(
                        ServerErrorResponses::GENERAL_ERROR(
                            "Max number of clients reached".to_owned(),
                        ),
                    ),
                },
                None => Err(ServerErrorResponses::ID_DOESNT_EXIST),
            },
        }
    }

    /// Records a heartbeat for the network `net_id`: refreshes the member
    /// that announced itself with `payload` and `iv`, or adds the sender as a
    /// member. Fails with `ID_DOESNT_EXIST` where no network has the id.
    pub fn heartbeat(
        &mut self,
        net_id: &String,
        src: SockAddr,
        payload: Vec<u8>,
        iv: [u8; 16],
        now: i64,
    ) -> (r: Result<(), ServerErrorResponses>)
        ensures
            unit_result_view(r) == spec_heartbeat_result(old(self)@, net_id@),
            final(self)@ == spec_heartbeat(old(self)@, net_id@, src, payload@, iv@, now),
            spec_unique_ids(old(self)@) ==> spec_unique_ids(final(self)@),
    {
        proof {
            lemma_first_index(self@, spec_has_id(net_id@));
        }
        match self.find(net_id) {
            None => Err(ServerErrorResponses::ID_DOESNT_EXIST),
            Some(i) => {
                match store_get(self, i) {
                    Some(mut registration) => {
                        heartbeat_registration(&mut registration, src, payload, iv, now);
                        store_set(self, i, registration);
                    },
                    None => {},
                }
                Ok(())
            },
        }
    }

    /// Sweeps every network: removes the members that were not heard of for
    /// longer than the expiry time and marks the networks that were not. A
    /// network that is marked stays registered and is answered for as before.
    pub fn sweep(&mut self, now: i64)
        ensures
            final(self)@ == spec_sweep(old(self)@, now),
            spec_unique_ids(old(self)@) ==> spec_unique_ids(final(self)@),
    {
        let ghost before = self@;
        let n = store_len(self);
        let mut i: usize = 0;
        while i < n
            invariant
                i <= n,
                n == before.len(),
                self@.len() == n,
                forall|j: int| 0 <= j < i ==> self@[j] == spec_sweep_registration(before[j], now),
                forall|j: int| i <= j < n ==> self@[j] == before[j],
            decreases n - i,
        {
            match store_get(self, i) {
                Some(mut registration) => {
                    sweep_registration(&mut registration, now);
                    store_set(self, i, registration);
                },
                None => {},
            }
            i += 1;
        }
        assert(self@ =~= spec_sweep(before, now));
    }
}

// ---------------------------------------------------------------------------
// What holds of the operations
// ---------------------------------------------------------------------------
/// Of two registrations of one id in a row, the first succeeds and the
/// second is refused with `ID_EXISTS` and changes nothing, where the id was
/// not registered before and the registry has room.
pub proof fn second_registration_is_refused(
    registry: Seq<RegistrationView>,
    limit: nat,
    first: RegistrationView,
    second: RegistrationView,
)
    requires
        first.net_id == second.net_id,
        spec_find(registry, first.net_id) is None,
        registry.len() < limit,
    ensures
        spec_register_result(registry, limit, first) == Ok::<(), ServerErrorView>(()),
        spec_register_result(spec_register(registry, limit, first), limit, second) == Err::<
            (),
            ServerErrorView,
        >(ServerErrorView::ID_EXISTS),
        spec_register(spec_register(registry, limit, first), limit, second) == spec_register(
            registry,
            limit,
            first,
        ),
{
    lemma_found_after_push(registry, first);
}

/// A network that is added to a registry without its id is found at the end.
pub proof fn lemma_found_after_push(registry: Seq<RegistrationView>, added: RegistrationView)
    requires
        spec_find(registry, added.net_id) is None,
    ensures
        spec_find(registry.push(added), added.net_id) == Some(registry.len() as int),
{
    let pred = spec_has_id(added.net_id);
    let after = registry.push(added);
    lemma_first_index(registry, pred);
    assert forall|j: int| 0 <= j < registry.len() implies !pred(#[trigger] after[j]) by {
        assert(after[j] == registry[j]);
    }
    lemma_first_index_is(after, pred, registry.len() as int);
}

/// A registration is refused with `ID_EXISTS` exactly where its id is
/// registered, whatever else holds.
pub proof fn registration_is_refused_iff_id_exists(
    registry: Seq<RegistrationView>,
    limit: nat,
    registration: RegistrationView,
)
    ensures
        spec_register_result(registry, limit, registration) == Err::<(), ServerErrorView>(
            ServerErrorView::ID_EXISTS,
        ) <==> exists|i: int|
            0 <= i < registry.len() && (#[trigger] registry[i]).net_id == registration.net_id,
{
    let pred = spec_has_id(registration.net_id);
    lemma_first_index(registry, pred);
    if exists|i: int|
        0 <= i < registry.len() && (#[trigger] registry[i]).net_id == registration.net_id {
        let i = choose|i: int|
            0 <= i < registry.len() && (#[trigger] registry[i]).net_id == registration.net_id;
        assert(pred(registry[i]));
    }
}

/// A GET request for an id that is not registered fails with
/// `ID_DOESNT_EXIST`.
pub proof fn get_of_unregistered_fails(registry: Seq<RegistrationView>, id: Seq<char>)
    requires
        forall|i: int| 0 <= i < registry.len() ==> (#[trigger] registry[i]).net_id != id,
    ensures
        spec_get(registry, id) == Err::<Seq<u8>, ServerErrorView>(ServerErrorView::ID_DOESNT_EXIST),
{
    lemma_first_index_none(registry, spec_has_id(id));
}

/// The response that lists one member.
pub open spec fn spec_single_listing(
    encrypted: bool,
    salt: Seq<u8>,
    iv: Seq<u8>,
    payload: Seq<u8>,
) -> GetResponseView {
    GetResponseView { encrypted, salt, members: seq![MemberView { iv, sock_addr: payload }] }
}

/// A GET request directly after a network was registered is answered with
/// the list of its one member: the founder's address and IV. A client reads
/// exactly that list from the answer.
pub proof fn get_after_register_lists_the_founder(
    registry: Seq<RegistrationView>,
    limit: nat,
    founded: RegistrationView,
)
    requires
        spec_find(registry, founded.net_id) is None,
        registry.len() < limit,
        founded.clients.len() == 1,
        founded.clients[0].client_sock_addr.len() <= 255,
        founded.clients[0].iv.len() == 16,
        founded.salt.len() == 16,
    ensures
        spec_get(spec_register(registry, limit, founded), founded.net_id) == Ok::<
            Seq<u8>,
            ServerErrorView,
        >(
            spec_single_listing(
                founded.encrypted,
                founded.salt,
                founded.clients[0].iv,
                founded.clients[0].client_sock_addr,
            ).bytes(),
        ),
        GetResponseView::parse(
            spec_single_listing(
                founded.encrypted,
                founded.salt,
                founded.clients[0].iv,
                founded.clients[0].client_sock_addr,
            ).bytes(),
        ) == Some(
            spec_single_listing(
                founded.encrypted,
                founded.salt,
                founded.clients[0].iv,
                founded.clients[0].client_sock_addr,
            ),
        ),
{
    let single = spec_single_listing(
        founded.encrypted,
        founded.salt,
        founded.clients[0].iv,
        founded.clients[0].client_sock_addr,
    );
    lemma_found_after_push(registry, founded);
    let after = spec_register(registry, limit, founded);
    assert(after[registry.len() as int] == founded);
    assert(spec_listing(founded).members =~= single.members);
    assert(spec_listing(founded) == single);
    assert(single.members[0].encodable());
    assert(single.encodable());
    reveal_with_fuel(spec_member_blocks, 2);
    assert(single.members.drop_last() =~= Seq::<MemberView>::empty());
    assert(single.bytes().len() == 19 + 17 + founded.clients[0].client_sock_addr.len());
    get_response_round_trip(single);
}

/// A heartbeat from a member that is known refreshes that member and adds
/// none; a heartbeat from one that is not known adds exactly that one. Either
/// way the network counts as heard of.
pub proof fn heartbeat_refreshes_or_adds(
    registration: RegistrationView,
    src: SockAddr,
    payload: Seq<u8>,
    iv: Seq<u8>,
    now: i64,
)
    ensures
        ({
            let after = spec_heartbeat_registration(registration, src, payload, iv, now);
            let known = exists|i: int|
                0 <= i < registration.clients.len() && (
                #[trigger] registration.clients[i]).client_sock_addr == payload
                    && registration.clients[i].iv == iv;
            &&& after.last_heart_beat == now
            &&& known ==> after.clients.len() == registration.clients.len()
            &&& known ==> exists|i: int|
                0 <= i < after.clients.len() && #[trigger] after.clients[i] == (ClientView {
                    last_heart_beat: now,
                    ..registration.clients[i]
                }) && registration.clients[i].client_sock_addr == payload
                    && registration.clients[i].iv == iv
            &&& !known ==> after.clients == registration.clients.push(
                ClientView { client_sock_addr: payload, last_heart_beat: now, iv, src },
            )
        }),
{
    let pred = spec_is_client(payload, iv);
    lemma_first_index(registration.clients, pred);
    let after = spec_heartbeat_registration(registration, src, payload, iv, now);
    match first_index(registration.clients, pred) {
        Some(i) => {
            assert(pred(registration.clients[i]));
            assert(after.clients[i] == (ClientView {
                last_heart_beat: now,
                ..registration.clients[i]
            }));
        },
        None => {
            assert forall|i: int| 0 <= i < registration.clients.len() implies !((
            #[trigger] registration.clients[i]).client_sock_addr == payload
                && registration.clients[i].iv == iv) by {
                assert(!pred(registration.clients[i]));
            }
        },
    }
}

/// The same heartbeat a second time changes nothing.
pub proof fn heartbeat_is_idempotent(
    registration: RegistrationView,
    src: SockAddr,
    payload: Seq<u8>,
    iv: Seq<u8>,
    now: i64,
)
    ensures
        spec_heartbeat_registration(
            spec_heartbeat_registration(registration, src, payload, iv, now),
            src,
            payload,
            iv,
            now,
        ) == spec_heartbeat_registration(registration, src, payload, iv, now),
{
    let pred = spec_is_client(payload, iv);
    let once = spec_heartbeat_registration(registration, src, payload, iv, now);
    let twice = spec_heartbeat_registration(once, src, payload, iv, now);
    lemma_first_index(registration.clients, pred);
    let at = match first_index(registration.clients, pred) {
        Some(i) => i,
        None => registration.clients.len() as int,
    };
    assert(pred(once.clients[at]));
    assert forall|j: int| 0 <= j < at implies !pred(#[trigger] once.clients[j]) by {
        assert(once.clients[j] == registration.clients[j]);
    }
    lemma_first_index_is(once.clients, pred, at);
    assert(twice.clients =~= once.clients);
}

/// A heartbeat for a network leaves every other network as it is, and
/// removes none.
pub proof fn heartbeat_touches_one_network(
    registry: Seq<RegistrationView>,
    id: Seq<char>,
    src: SockAddr,
    payload: Seq<u8>,
    iv: Seq<u8>,
    now: i64,
)
    ensures
        ({
            let after = spec_heartbeat(registry, id, src, payload, iv, now);
            &&& after.len() == registry.len()
            &&& forall|i: int|
                0 <= i < registry.len() && registry[i].net_id != id ==> #[trigger] after[i]
                    == registry[i]
            &&& forall|i: int|
                0 <= i < registry.len() ==> (#[trigger] after[i]).net_id == registry[i].net_id
        }),
{
    lemma_first_index(registry, spec_has_id(id));
}

/// After a sweep a network has exactly those of its members that were heard
/// of within the expiry time.
pub proof fn sweep_keeps_the_living(registration: RegistrationView, now: i64, client: ClientView)
    ensures
        spec_sweep_registration(registration, now).clients.contains(client) <==> (
        registration.clients.contains(client) && now - client.last_heart_beat <= HEARTBEAT_EXPIRY),
{
    let pred = spec_is_alive(now);
    let kept = registration.clients.filter(pred);
    if kept.contains(client) {
        let i = choose|i: int| 0 <= i < kept.len() && kept[i] == client;
        registration.clients.lemma_filter_pred(pred, i);
        registration.clients.lemma_filter_contains_rev(pred, client);
    }
    if registration.clients.contains(client) && pred(client) {
        let i = choose|i: int| 0 <= i < registration.clients.len() && registration.clients[i]
            == client;
        registration.clients.lemma_filter_contains(pred, i);
    }
}

/// A sweep removes no network and changes no id.
pub proof fn sweep_keeps_every_network(registry: Seq<RegistrationView>, now: i64)
    ensures
        spec_sweep(registry, now).len() == registry.len(),
        forall|i: int|
            0 <= i < registry.len() ==> (#[trigger] spec_sweep(registry, now)[i]).net_id
                == registry[i].net_id,
        forall|i: int|
            0 <= i < registry.len() ==> (#[trigger] spec_sweep(registry, now)[i]).clients.len()
                <= registry[i].clients.len(),
{
    assert forall|i: int| 0 <= i < registry.len() implies (#[trigger] spec_sweep(
        registry,
        now,
    )[i]).clients.len() <= registry[i].clients.len() by {
        registry[i].clients.lemma_filter_len(spec_is_alive(now));
    }
}

} // verus!
