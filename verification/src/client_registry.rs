use vstd::prelude::*;

use crate::address::NetAddress;
use crate::text::{decimal, decimal_text};

verus! {

/// An ID that uniquely identifies a network client.
/// Can be used in game logic to match relevant entities to network clients.
#[derive(Copy, Clone, PartialEq, Eq, Debug, Structural)]
pub struct ClientID(pub u32);

/// A registered client: its ID, address and player name.
pub struct ClientHandle {
    pub id: ClientID,
    pub addr: NetAddress,
    /// Right now it is used as a user_name, but no further authentication done.
    pub player_name: String,
}

/// A registered client as the specifications see it.
pub struct ClientRecord {
    pub id: ClientID,
    pub addr: NetAddress,
    pub name: Seq<char>,
}

impl View for ClientHandle {
    type V = ClientRecord;

    open spec fn view(&self) -> ClientRecord {
        ClientRecord { id: self.id, addr: self.addr, name: self.player_name@ }
    }
}

/// The registry as the specifications see it.
pub struct RegistryView {
    pub max_slots: nat,
    pub next_id: nat,
    pub clients: Seq<ClientRecord>,
}

/// Keeps track of the connected clients, at most `max_slots` of them.
pub struct ClientRegistry {
    max_slots: usize,
    next_id: u32,
    clients: Vec<ClientHandle>,
}

#[derive(Copy, Clone, PartialEq, Eq, Debug, Structural)]
pub enum AddError {
    /// Player with already connected with same address xor name, not authorizing.
    Unauthorized,
    /// Server is full.
    ServerIsFull,
}

#[derive(Copy, Clone, PartialEq, Eq, Debug, Structural)]
pub enum RemoveError {
    /// No such registered address.
    NoSuchClient,
}

impl AddError {
    /// The text that describes the error.
    pub fn message(&self) -> (r: &'static str)
        ensures
            r@ == match self {
                AddError::Unauthorized => "Player with already connected with same address xor name, not authorizing. Possibly malicious attempt?"@,
                AddError::ServerIsFull => "Server is full"@,
            },
    {
        match self {
            AddError::Unauthorized => "Player with already connected with same address xor name, not authorizing. Possibly malicious attempt?",
            AddError::ServerIsFull => "Server is full",
        }
    }
}

impl RemoveError {
    /// The text that describes the error.
    pub fn message(&self) -> (r: &'static str)
        ensures
            r@ == "No such registered address"@,
    {
        "No such registered address"
    }
}

/// `i` is a registered client that has the address or the name.
pub open spec fn matches_addr_or_name(clients: Seq<ClientRecord>, i: int, addr: NetAddress, name: Seq<char>) -> bool {
    0 <= i < clients.len() && (clients[i].addr == addr || clients[i].name == name)
}

/// `i` is a registered client that has the address and the name.
pub open spec fn matches_both(clients: Seq<ClientRecord>, i: int, addr: NetAddress, name: Seq<char>) -> bool {
    0 <= i < clients.len() && clients[i].addr == addr && clients[i].name == name
}

/// Some registered client has the address or the name.
pub open spec fn addr_or_name_taken(clients: Seq<ClientRecord>, addr: NetAddress, name: Seq<char>) -> bool {
    exists|i: int| #[trigger] matches_addr_or_name(clients, i, addr, name)
}

/// The same client (address and name) is registered already.
pub open spec fn already_registered(clients: Seq<ClientRecord>, addr: NetAddress, name: Seq<char>) -> bool {
    exists|i: int| #[trigger] matches_both(clients, i, addr, name)
}

/// The registry is full.
pub open spec fn is_full(reg: RegistryView) -> bool {
    reg.clients.len() >= reg.max_slots
}

/// `add` would register a new client.
pub open spec fn registers_new(reg: RegistryView, addr: NetAddress, name: Seq<char>) -> bool {
    !is_full(reg) && !addr_or_name_taken(reg.clients, addr, name)
}

/// What `add` returns on a registry.
pub open spec fn add_result(reg: RegistryView, addr: NetAddress, name: Seq<char>) -> Result<ClientID, AddError> {
    if is_full(reg) {
        Err(AddError::ServerIsFull)
    } else if already_registered(reg.clients, addr, name) {
        Ok(reg.clients[choose|i: int| matches_both(reg.clients, i, addr, name)].id)
    } else if addr_or_name_taken(reg.clients, addr, name) {
        Err(AddError::Unauthorized)
    } else {
        Ok(ClientID(reg.next_id as u32))
    }
}

/// The registry after `add`.
pub open spec fn add_state(reg: RegistryView, addr: NetAddress, name: Seq<char>) -> RegistryView {
    if registers_new(reg, addr, name) {
        RegistryView {
            max_slots: reg.max_slots,
            next_id: reg.next_id + 1,
            clients: reg.clients.push(ClientRecord { id: ClientID(reg.next_id as u32), addr, name }),
        }
    } else {
        reg
    }
}

/// `k` is the first registered client with the address.
pub open spec fn first_with_addr(clients: Seq<ClientRecord>, addr: NetAddress, k: int) -> bool {
    &&& 0 <= k < clients.len()
    &&& clients[k].addr == addr
    &&& forall|j: int| 0 <= j < k ==> clients[j].addr != addr
}

/// Some registered client has the address.
pub open spec fn has_addr(clients: Seq<ClientRecord>, addr: NetAddress) -> bool {
    exists|i: int| 0 <= i < clients.len() && #[trigger] clients[i].addr == addr
}

/// Some registered client has the ID.
pub open spec fn has_id(clients: Seq<ClientRecord>, id: ClientID) -> bool {
    exists|i: int| 0 <= i < clients.len() && #[trigger] clients[i].id == id
}

/// The index of the client with the address (meaningful where `has_addr` holds).
pub open spec fn index_of_addr(clients: Seq<ClientRecord>, addr: NetAddress) -> int {
    choose|k: int| first_with_addr(clients, addr, k)
}

/// There is only one first client with an address, and `index_of_addr` names it.
pub proof fn lemma_first_with_addr_is_index(clients: Seq<ClientRecord>, addr: NetAddress, i: int)
    requires
        first_with_addr(clients, addr, i),
    ensures
        has_addr(clients, addr),
        index_of_addr(clients, addr) == i,
{
    assert(clients[i].addr == addr);
    let k = index_of_addr(clients, addr);
    assert(first_with_addr(clients, addr, k));
    if k < i {
        assert(clients[k].addr != addr);
    } else if i < k {
        assert(clients[i].addr != addr);
    }
}

/// What `remove` returns on a registry.
pub open spec fn remove_result(reg: RegistryView, addr: NetAddress) -> Result<ClientID, RemoveError> {
    if has_addr(reg.clients, addr) {
        Ok(reg.clients[index_of_addr(reg.clients, addr)].id)
    } else {
        Err(RemoveError::NoSuchClient)
    }
}

/// The registry after `remove`.
pub open spec fn remove_state(reg: RegistryView, addr: NetAddress) -> RegistryView {
    if has_addr(reg.clients, addr) {
        RegistryView {
            max_slots: reg.max_slots,
            next_id: reg.next_id,
            clients: reg.clients.remove(index_of_addr(reg.clients, addr)),
        }
    } else {
        reg
    }
}

/// IDs, addresses and names are each unique; every ID was handed out before `next_id`;
/// no more clients than slots.
pub open spec fn registry_wf(reg: RegistryView) -> bool {
    &&& reg.clients.len() <= reg.max_slots
    &&& reg.next_id <= u32::MAX
    &&& forall|i: int| 0 <= i < reg.clients.len() ==> (#[trigger] reg.clients[i]).id.0 < reg.next_id
    &&& forall|i: int, j: int| 0 <= i < reg.clients.len() && 0 <= j < reg.clients.len() && i != j ==> {
        &&& (#[trigger] reg.clients[i]).id != (#[trigger] reg.clients[j]).id
        &&& reg.clients[i].addr != reg.clients[j].addr
        &&& reg.clients[i].name != reg.clients[j].name
    }
}


/// The texts of the strings, in order.
pub open spec fn views_of(strings: Seq<String>) -> Seq<Seq<char>> {
    strings.map_values(|s: String| s@)
}

/// The line of the registry's report on one client.
pub open spec fn report_line(client: ClientRecord, address_text: Seq<char>) -> Seq<char> {
    "\n  - ID="@ + decimal(client.id.0 as nat) + ", address="@ + address_text + ", player_name="@
        + client.name
}

/// The report's lines on the first `n` clients, the address of client `i` written as
/// `address_texts[i]`.
pub open spec fn report_lines(clients: Seq<ClientRecord>, address_texts: Seq<Seq<char>>, n: nat) -> Seq<char>
    decreases n,
{
    if n == 0 {
        Seq::empty()
    } else {
        report_lines(clients, address_texts, (n - 1) as nat) + report_line(
            clients[n - 1],
            address_texts[n - 1],
        )
    }
}

/// The registry as text: the number of clients, then one line for each client, in order.
pub open spec fn registry_report(reg: RegistryView, address_texts: Seq<Seq<char>>) -> Seq<char> {
    "ClientRegistry (count: "@ + decimal(reg.clients.len()) + ")"@ + report_lines(
        reg.clients,
        address_texts,
        reg.clients.len(),
    )
}

/// The lines on the first `n` clients depend on the first `n` address texts only.
pub proof fn lemma_report_lines_prefix(clients: Seq<ClientRecord>, t1: Seq<Seq<char>>, t2: Seq<Seq<char>>, n: nat)
    requires
        n <= t1.len(),
        n <= t2.len(),
        forall|j: int| 0 <= j < n ==> t1[j] == t2[j],
    ensures
        report_lines(clients, t1, n) == report_lines(clients, t2, n),
    decreases n,
{
    if n > 0 {
        lemma_report_lines_prefix(clients, t1, t2, (n - 1) as nat);
    }
}

/// The report opens with the number of clients registered now, whatever the address texts.
pub proof fn lemma_report_opens_with_client_count(reg: RegistryView, address_texts: Seq<Seq<char>>)
    ensures
        ({
            let opening = "ClientRegistry (count: "@ + decimal(reg.clients.len()) + ")"@;
            registry_report(reg, address_texts).subrange(0, opening.len() as int) == opening
        }),
{
    let opening = "ClientRegistry (count: "@ + decimal(reg.clients.len()) + ")"@;
    assert(registry_report(reg, address_texts).subrange(0, opening.len() as int) =~= opening);
}

/// After a client is removed, the report counts one client less: the count follows the clients
/// registered now, not the IDs handed out so far.
pub proof fn lemma_report_after_removal(reg: RegistryView, addr: NetAddress, address_texts: Seq<Seq<char>>)
    requires
        registry_wf(reg),
        has_addr(reg.clients, addr),
    ensures
        ({
            let opening = "ClientRegistry (count: "@ + decimal((reg.clients.len() - 1) as nat) + ")"@;
            registry_report(remove_state(reg, addr), address_texts).subrange(0, opening.len() as int)
                == opening
        }),
{
    lemma_removed_client_is_gone(reg, addr);
    lemma_report_opens_with_client_count(remove_state(reg, addr), address_texts);
}

impl View for ClientRegistry {
    type V = RegistryView;

    closed spec fn view(&self) -> RegistryView {
        RegistryView {
            max_slots: self.max_slots as nat,
            next_id: self.next_id as nat,
            clients: self.clients@.map_values(|h: ClientHandle| h@),
        }
    }
}

impl ClientRegistry {
    pub open spec fn wf(&self) -> bool {
        registry_wf(self@)
    }

    pub fn new(max_slots: usize) -> (r: Self)
        ensures
            r@.max_slots == max_slots,
            r@.next_id == 0,
            r@.clients == Seq::<ClientRecord>::empty(),
            r.wf(),
    {
        let r = ClientRegistry { max_slots, next_id: 0, clients: Vec::new() };
        assert(r@.clients =~= Seq::<ClientRecord>::empty());
        r
    }

    /// Registers a client, or gives back the ID of the same client registered before.
    pub fn add(&mut self, addr: &NetAddress, player_name: &str) -> (r: Result<ClientID, AddError>)
        requires
            old(self).wf(),
            registers_new(old(self)@, *addr, player_name@) ==> old(self)@.next_id < u32::MAX,
        ensures
            final(self).wf(),
            r == add_result(old(self)@, *addr, player_name@),
            final(self)@ == add_state(old(self)@, *addr, player_name@),
    {
        if self.clients.len() >= self.max_slots {
            return Err(AddError::ServerIsFull);
        }
        let name = player_name.to_owned();
        match self.find_by_addr_or_name(addr, &name) {
            Some(idx) => {
                let h = &self.clients[idx];
                if h.player_name == name && h.addr == *addr {
                    proof {
                        let ghost i = idx as int;
                        assert(matches_both(self@.clients, i, *addr, player_name@));
                        let ghost c = choose|c: int| matches_both(self@.clients, c, *addr, player_name@);
                        assert(matches_both(self@.clients, c, *addr, player_name@));
                    }
                    Ok(h.id)
                } else {
                    proof {
                        let ghost i = idx as int;
                        assert(matches_addr_or_name(self@.clients, i, *addr, player_name@));
                        assert forall|c: int| !matches_both(self@.clients, c, *addr, player_name@) by {
                            if matches_both(self@.clients, c, *addr, player_name@) {
                                assert(c != i);
                            }
                        }
                    }
                    Err(AddError::Unauthorized)
                }
            },
            None => {
                assert forall|c: int| !matches_both(self@.clients, c, *addr, player_name@) by {
                    assert(!matches_addr_or_name(self@.clients, c, *addr, player_name@));
                }
                Ok(self.add_new_client(*addr, name))
            },
        }
    }

    /// The client with the ID, if it is registered.
    pub fn find_client(&self, client_id: ClientID) -> (r: Option<&ClientHandle>)
        ensures
            match r {
                Some(h) => exists|i: int| 0 <= i < self@.clients.len() && self@.clients[i] == h@
                    && h.id == client_id
                    && forall|j: int| 0 <= j < i ==> self@.clients[j].id != client_id,
                None => !has_id(self@.clients, client_id),
            },
    {
        let len = self.clients.len();
        for i in 0..len
            invariant
                len == self.clients@.len(),
                forall|j: int| 0 <= j < i ==> self@.clients[j].id != client_id,
        {
            if self.clients[i].id == client_id {
                assert(self@.clients[i as int] == self.clients@[i as int]@);
                return Some(&self.clients[i]);
            }
        }
        None
    }

    /// The client with the address, if it is registered.
    pub fn find_by_addr(&self, addr: &NetAddress) -> (r: Option<&ClientHandle>)
        ensures
            match r {
                Some(h) => exists|i: int| first_with_addr(self@.clients, *addr, i) && self@.clients[i] == h@,
                None => !has_addr(self@.clients, *addr),
            },
    {
        let len = self.clients.len();
        for i in 0..len
            invariant
                len == self.clients@.len(),
                forall|j: int| 0 <= j < i ==> self@.clients[j].addr != *addr,
        {
            if self.clients[i].addr == *addr {
                assert(first_with_addr(self@.clients, *addr, i as int));
                return Some(&self.clients[i]);
            }
        }
        None
    }

    /// Unregisters the client with the address and gives back its ID.
    pub fn remove(&mut self, addr: &NetAddress) -> (r: Result<ClientID, RemoveError>)
        requires
            old(self).wf(),
        ensures
            final(self).wf(),
            r == remove_result(old(self)@, *addr),
            final(self)@ == remove_state(old(self)@, *addr),
    {
        let len = self.clients.len();
        for i in 0..len
            invariant
                len == self.clients@.len(),
                self@ == old(self)@,
                registry_wf(old(self)@),
                forall|j: int| 0 <= j < i ==> self@.clients[j].addr != *addr,
        {
            if self.clients[i].addr == *addr {
                proof {
                    assert(first_with_addr(self@.clients, *addr, i as int));
                    let k = index_of_addr(self@.clients, *addr);
                    assert(first_with_addr(self@.clients, *addr, k));
                    assert(k == i);
                }
                let removed_id = self.clients[i].id;
                self.clients.remove(i);
                proof {
                    let ghost before = old(self)@.clients;
                    assert(self@.clients =~= before.remove(i as int));
                    lemma_remove_keeps_wf(old(self)@, i as int);
                }
                return Ok(removed_id);
            }
        }
        Err(RemoveError::NoSuchClient)
    }

    /// The ID that the next newly registered client gets.
    pub fn next_client_id(&self) -> (r: u32)
        ensures
            r == self@.next_id,
    {
        self.next_id
    }

    pub fn client_count(&self) -> (r: usize)
        ensures
            r == self@.clients.len(),
    {
        self.clients.len()
    }

    /// The registry as text, as it is logged: the number of clients, then one line for each
    /// client with its ID, address and player name. `address_text` writes an address; it is
    /// called once for each client, in order.
    pub fn report<F: Fn(&NetAddress) -> String>(&self, address_text: F) -> (r: String)
        requires
            forall|a: &NetAddress| call_requires(address_text, (a,)),
        ensures
            exists|texts: Seq<String>| #![trigger views_of(texts)]
                {
                    &&& texts.len() == self@.clients.len()
                    &&& forall|i: int| 0 <= i < texts.len()
                        ==> call_ensures(address_text, (&self@.clients[i].addr,), #[trigger] texts[i])
                    &&& r@ == registry_report(self@, views_of(texts))
                },
    {
        let n = self.clients.len();
        let mut text = String::from_str("ClientRegistry (count: ");
        let count = decimal_text(n as u64);
        text.append(count.as_str());
        text.append(")");
        let ghost header = text@;
        let ghost mut texts: Seq<String> = Seq::empty();
        for i in 0..n
            invariant
                n == self.clients@.len(),
                n == self@.clients.len(),
                forall|a: &NetAddress| call_requires(address_text, (a,)),
                texts.len() == i,
                forall|j: int| 0 <= j < i
                    ==> call_ensures(address_text, (&self@.clients[j].addr,), #[trigger] texts[j]),
                header == "ClientRegistry (count: "@ + decimal(n as nat) + ")"@,
                text@ == header + report_lines(self@.clients, views_of(texts), i as nat),
        {
            let handle = &self.clients[i];
            assert(self@.clients[i as int] == handle@);
            let address = address_text(&handle.addr);
            text.append("\n  - ID=");
            let id = decimal_text(handle.id.0 as u64);
            text.append(id.as_str());
            text.append(", address=");
            text.append(address.as_str());
            text.append(", player_name=");
            text.append(handle.player_name.as_str());
            proof {
                let before = views_of(texts);
                texts = texts.push(address);
                let after = views_of(texts);
                lemma_report_lines_prefix(self@.clients, before, after, i as nat);
                assert(after[i as int] == address@);
            }
        }
        text
    }

    /// All registered clients, in the order of registration.
    pub fn get_clients(&self) -> (r: &Vec<ClientHandle>)
        ensures
            r@.map_values(|h: ClientHandle| h@) == self@.clients,
    {
        &self.clients
    }

    fn add_new_client(&mut self, addr: NetAddress, player_name: String) -> (r: ClientID)
        requires
            old(self).wf(),
            registers_new(old(self)@, addr, player_name@),
            old(self)@.next_id < u32::MAX,
        ensures
            final(self).wf(),
            r == ClientID(old(self)@.next_id as u32),
            final(self)@ == add_state(old(self)@, addr, player_name@),
    {
        let id = ClientID(self.next_id);
        self.next_id = self.next_id + 1;
        self.clients.push(ClientHandle { id, addr, player_name });
        proof {
            let ghost rec = ClientRecord { id, addr, name: player_name@ };
            let ghost oc = old(self)@.clients;
            let ghost nc = self@.clients;
            assert(nc =~= oc.push(rec));
            assert forall|i: int| 0 <= i < oc.len() implies
                nc[i].id != rec.id && nc[i].addr != rec.addr && nc[i].name != rec.name by {
                assert(!matches_addr_or_name(oc, i, addr, player_name@));
                assert(nc[i] == oc[i]);
            }
            assert forall|i: int, j: int| 0 <= i < nc.len() && 0 <= j < nc.len() && i != j implies {
                &&& (#[trigger] nc[i]).id != (#[trigger] nc[j]).id
                &&& nc[i].addr != nc[j].addr
                &&& nc[i].name != nc[j].name
            } by {
                if i < oc.len() && j < oc.len() {
                    assert(nc[i] == oc[i] && nc[j] == oc[j]);
                }
            }
            assert forall|i: int| 0 <= i < nc.len() implies (#[trigger] nc[i]).id.0 < self@.next_id by {
                if i < oc.len() {
                    assert(nc[i] == oc[i]);
                }
            }
        }
        id
    }

    /// The index of the first client with the address or the name.
    fn find_by_addr_or_name(&self, addr: &NetAddress, name: &String) -> (r: Option<usize>)
        ensures
            match r {
                Some(i) => matches_addr_or_name(self@.clients, i as int, *addr, name@)
                    && forall|j: int| 0 <= j < i ==> !matches_addr_or_name(self@.clients, j, *addr, name@),
                None => !addr_or_name_taken(self@.clients, *addr, name@),
            },
    {
        let len = self.clients.len();
        for i in 0..len
            invariant
                len == self.clients@.len(),
                forall|j: int| 0 <= j < i ==> !matches_addr_or_name(self@.clients, j, *addr, name@),
        {
            if self.clients[i].addr == *addr || self.clients[i].player_name == *name {
                return Some(i);
            }
        }
        None
    }
}

/// Removing a client keeps the registry well formed.
proof fn lemma_remove_keeps_wf(reg: RegistryView, k: int)
    requires
        registry_wf(reg),
        0 <= k < reg.clients.len(),
    ensures
        registry_wf(RegistryView { max_slots: reg.max_slots, next_id: reg.next_id, clients: reg.clients.remove(k) }),
{
    let c = reg.clients.remove(k);
    assert forall|i: int, j: int| 0 <= i < c.len() && 0 <= j < c.len() && i != j implies {
        &&& (#[trigger] c[i]).id != (#[trigger] c[j]).id
        &&& c[i].addr != c[j].addr
        &&& c[i].name != c[j].name
    } by {
        let oi = if i < k { i } else { i + 1 };
        let oj = if j < k { j } else { j + 1 };
        assert(c[i] == reg.clients[oi]);
        assert(c[j] == reg.clients[oj]);
    }
    assert forall|i: int| 0 <= i < c.len() implies (#[trigger] c[i]).id.0 < reg.next_id by {
        let oi = if i < k { i } else { i + 1 };
        assert(c[i] == reg.clients[oi]);
    }
}

/// Registering a client that is registered already gives back the same ID and changes
/// nothing, as long as the server is not full.
pub proof fn lemma_add_again_gives_same_id(reg: RegistryView, addr: NetAddress, name: Seq<char>)
    requires
        registry_wf(reg),
        add_result(reg, addr, name) is Ok,
        !is_full(add_state(reg, addr, name)),
    ensures
        add_result(add_state(reg, addr, name), addr, name) == add_result(reg, addr, name),
        add_state(add_state(reg, addr, name), addr, name) == add_state(reg, addr, name),
{
    let after = add_state(reg, addr, name);
    if registers_new(reg, addr, name) {
        let k = reg.clients.len() as int;
        assert(after.clients[k] == ClientRecord { id: ClientID(reg.next_id as u32), addr, name });
        assert(matches_both(after.clients, k, addr, name));
        assert(already_registered(after.clients, addr, name));
        assert(matches_addr_or_name(after.clients, k, addr, name));
        assert(addr_or_name_taken(after.clients, addr, name));
        let c = choose|c: int| matches_both(after.clients, c, addr, name);
        if c != k {
            assert(after.clients[c] == reg.clients[c]);
            assert(matches_addr_or_name(reg.clients, c, addr, name));
        }
        assert(c == k);
        assert(!registers_new(after, addr, name));
        assert(!already_registered(reg.clients, addr, name)) by {
            if already_registered(reg.clients, addr, name) {
                let d = choose|d: int| matches_both(reg.clients, d, addr, name);
                assert(matches_addr_or_name(reg.clients, d, addr, name));
            }
        }
    } else {
        let c = choose|c: int| matches_both(reg.clients, c, addr, name);
        assert(matches_both(reg.clients, c, addr, name));
        assert(matches_addr_or_name(reg.clients, c, addr, name));
    }
}

/// A newly registered client is found by its ID and by its address, with its name.
pub proof fn lemma_registered_client_is_found(reg: RegistryView, addr: NetAddress, name: Seq<char>)
    requires
        registry_wf(reg),
        registers_new(reg, addr, name),
    ensures
        add_result(reg, addr, name) == Ok::<ClientID, AddError>(ClientID(reg.next_id as u32)),
        ({
            let after = add_state(reg, addr, name);
            let k = reg.clients.len() as int;
            &&& first_with_addr(after.clients, addr, k)
            &&& after.clients[k] == ClientRecord { id: ClientID(reg.next_id as u32), addr, name }
            &&& forall|j: int| 0 <= j < k ==> after.clients[j].id != ClientID(reg.next_id as u32)
        }),
{
    let after = add_state(reg, addr, name);
    let k = reg.clients.len() as int;
    assert(!already_registered(reg.clients, addr, name)) by {
        if already_registered(reg.clients, addr, name) {
            let c = choose|c: int| matches_both(reg.clients, c, addr, name);
            assert(matches_addr_or_name(reg.clients, c, addr, name));
        }
    }
    assert forall|j: int| 0 <= j < k implies after.clients[j].addr != addr
        && after.clients[j].id != ClientID(reg.next_id as u32) by {
        assert(after.clients[j] == reg.clients[j]);
        assert(!matches_addr_or_name(reg.clients, j, addr, name));
        assert(reg.clients[j].id.0 < reg.next_id);
    }
}

/// Once removed, a client is found neither by its address nor by its ID.
pub proof fn lemma_removed_client_is_gone(reg: RegistryView, addr: NetAddress)
    requires
        registry_wf(reg),
        has_addr(reg.clients, addr),
    ensures
        remove_result(reg, addr) is Ok,
        !has_addr(remove_state(reg, addr).clients, addr),
        !has_id(remove_state(reg, addr).clients, remove_result(reg, addr)->Ok_0),
        remove_state(reg, addr).clients.len() + 1 == reg.clients.len(),
{
    let i0 = choose|i: int| 0 <= i < reg.clients.len() && #[trigger] reg.clients[i].addr == addr;
    let k = index_of_addr(reg.clients, addr);
    assert(first_with_addr(reg.clients, addr, k)) by {
        lemma_first_with_addr_exists(reg.clients, addr, i0);
    }
    let after = remove_state(reg, addr).clients;
    let id = reg.clients[k].id;
    assert forall|i: int| 0 <= i < after.len() implies after[i].addr != addr && after[i].id != id by {
        let oi = if i < k { i } else { i + 1 };
        assert(after[i] == reg.clients[oi]);
    }
}

/// Some client with the address is the first one.
proof fn lemma_first_with_addr_exists(clients: Seq<ClientRecord>, addr: NetAddress, i: int)
    requires
        0 <= i < clients.len(),
        clients[i].addr == addr,
    ensures
        exists|k: int| first_with_addr(clients, addr, k),
    decreases i,
{
    if exists|j: int| 0 <= j < i && clients[j].addr == addr {
        let j = choose|j: int| 0 <= j < i && clients[j].addr == addr;
        lemma_first_with_addr_exists(clients, addr, j);
    } else {
        assert(first_with_addr(clients, addr, i));
    }
}

} // verus!
