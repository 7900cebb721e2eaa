//! What the registrar stores: networks and their members.

use vstd::prelude::*;

use crate::shared::addr::SockAddr;
use crate::shared::wire::zero_block;

verus! {

/// A member of a network, as the registrar knows it.
#[derive(Clone, Debug, PartialEq, Eq)]
pub struct Client {
    /// The member's public address as it announced it: text, or ciphertext
    /// where the network is encrypted.
    pub client_sock_addr: Vec<u8>,
    pub last_heart_beat: i64,
    /// The IV under which the address was encrypted.
    pub iv: [u8; 16],
    /// Where the announcement came from.
    pub src: SockAddr,
}

/// A member as plain values.
pub struct ClientView {
    pub client_sock_addr: Seq<u8>,
    pub last_heart_beat: i64,
    pub iv: Seq<u8>,
    pub src: SockAddr,
}

impl View for Client {
    type V = ClientView;

    open spec fn view(&self) -> ClientView {
        ClientView {
            client_sock_addr: self.client_sock_addr@,
            last_heart_beat: self.last_heart_beat,
            iv: self.iv@,
            src: self.src,
        }
    }
}

impl Client {
    pub fn new(client_addr: Vec<u8>, heart_beat: i64, iv: [u8; 16], src: SockAddr) -> (client:
        Client)
        ensures
            client@ == (ClientView {
                client_sock_addr: client_addr@,
                last_heart_beat: heart_beat,
                iv: iv@,
                src,
            }),
    {
        Client { client_sock_addr: client_addr, last_heart_beat: heart_beat, iv, src }
    }

    /// A copy of the member.
    pub fn duplicate(&self) -> (copy: Client)
        ensures
            copy@ == self@,
    {
        Client {
            client_sock_addr: self.client_sock_addr.clone(),
            last_heart_beat: self.last_heart_beat,
            iv: self.iv,
            src: self.src,
        }
    }
}

/// The members of a network as plain values.
pub open spec fn clients_view(clients: Seq<Client>) -> Seq<ClientView> {
    clients.map_values(|c: Client| c@)
}

/// A network, as the registrar knows it.
#[derive(Clone, Debug, PartialEq, Eq)]
pub struct Registration {
    pub net_id: String,
    pub clients: Vec<Client>,
    /// When a member of the network was last heard of.
    pub last_heart_beat: i64,
    pub encrypted: bool,
    pub salt: [u8; 16],
    /// Set by the sweep once the network has not been heard of for too long.
    pub invalid: bool,
}

/// A network as plain values.
pub struct RegistrationView {
    pub net_id: Seq<char>,
    pub clients: Seq<ClientView>,
    pub last_heart_beat: i64,
    pub encrypted: bool,
    pub salt: Seq<u8>,
    pub invalid: bool,
}

impl View for Registration {
    type V = RegistrationView;

    open spec fn view(&self) -> RegistrationView {
        RegistrationView {
            net_id: self.net_id@,
            clients: clients_view(self.clients@),
            last_heart_beat: self.last_heart_beat,
            encrypted: self.encrypted,
            salt: self.salt@,
            invalid: self.invalid,
        }
    }
}

/// A block as given, or zeros.
pub open spec fn spec_block_or_zero(block: Option<[u8; 16]>) -> Seq<u8> {
    match block {
        Some(b) => b@,
        None => Seq::new(16, |i: int| 0u8),
    }
}

/// The network that a first member founds.
pub open spec fn spec_new_registration(
    net_id: Seq<char>,
    client_addr: Seq<u8>,
    encrypted: bool,
    heart_beat: i64,
    salt: Seq<u8>,
    iv: Seq<u8>,
    src: SockAddr,
) -> RegistrationView {
    RegistrationView {
        net_id,
        clients: seq![
            ClientView { client_sock_addr: client_addr, last_heart_beat: heart_beat, iv, src },
        ],
        last_heart_beat: heart_beat,
        encrypted,
        salt,
        invalid: false,
    }
}

impl Registration {
    /// A network with one member. A salt or an IV that is not given is zero.
    pub fn new(
        net_id: String,
        client_addr: Vec<u8>,
        encrypted: bool,
        heart_beat: i64,
        salt: Option<[u8; 16]>,
        iv: Option<[u8; 16]>,
        src: SockAddr,
    ) -> (registration: Registration)
        ensures
            registration@ == spec_new_registration(
                net_id@,
                client_addr@,
                encrypted,
                heart_beat,
                spec_block_or_zero(salt),
                spec_block_or_zero(iv),
                src,
            ),
    {
        let iv_block = match iv {
            Some(b) => b,
            None => zero_block(),
        };
        let salt_block = match salt {
            Some(b) => b,
            None => zero_block(),
        };
        let mut clients: Vec<Client> = Vec::new();
        clients.push(Client::new(client_addr, heart_beat, iv_block, src));
        let registration = Registration {
            net_id,
            clients,
            encrypted,
            last_heart_beat: heart_beat,
            salt: salt_block,
            invalid: false,
        };
        assert(registration@.clients =~= seq![
            ClientView {
                client_sock_addr: client_addr@,
                last_heart_beat: heart_beat,
                iv: spec_block_or_zero(iv),
                src,
            },
        ]);
        registration
    }
}

} // verus!
