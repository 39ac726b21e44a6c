//! The messaging plugin's logic: which parts of it a side of the network
//! sets up, the registry that gives each message type its id, the wire form
//! of a message envelope, and the routing of received envelopes to the
//! message type that their id names.
use std::collections::HashMap;
use vstd::prelude::*;

use crate::port_systems::inject_extract_uuid::UuidBytes;

verus! {

/// A role that an application can play on the network.
#[derive(Debug, Clone, Copy, PartialEq, Eq, Structural)]
pub enum NetworkType {
    Client,
    LocalServer,
    DedicatedServer,
}

/// Which roles the running application plays.
#[derive(Debug, Clone, Copy, PartialEq, Eq, Structural)]
pub struct NetworkSides {
    pub is_client: bool,
    pub is_local_server: bool,
    pub is_dedicated_server: bool,
}

impl NetworkSides {
    /// The roles named in `types`.
    pub fn from_types(types: &[NetworkType]) -> (sides: NetworkSides)
        ensures
            sides.is_client <==> types@.contains(NetworkType::Client),
            sides.is_local_server <==> types@.contains(NetworkType::LocalServer),
            sides.is_dedicated_server <==> types@.contains(NetworkType::DedicatedServer),
    {
        let mut sides = NetworkSides {
            is_client: false,
            is_local_server: false,
            is_dedicated_server: false,
        };
        let mut i: usize = 0;
        while i < types.len()
            invariant
                i <= types@.len(),
                sides.is_client <==> types@.take(i as int).contains(NetworkType::Client),
                sides.is_local_server <==> types@.take(i as int).contains(
                    NetworkType::LocalServer,
                ),
                sides.is_dedicated_server <==> types@.take(i as int).contains(
                    NetworkType::DedicatedServer,
                ),
            decreases types@.len() - i,
        {
            let ghost before = types@.take(i as int);
            assert(types@.take(i + 1) =~= before.push(types@[i as int]));
            proof {
                vstd::seq_lib::lemma_seq_contains_after_push(before, types@[i as int], NetworkType::Client);
                vstd::seq_lib::lemma_seq_contains_after_push(before, types@[i as int], NetworkType::LocalServer);
                vstd::seq_lib::lemma_seq_contains_after_push(before, types@[i as int], NetworkType::DedicatedServer);
            }
            match types[i] {
                NetworkType::Client => sides.is_client = true,
                NetworkType::LocalServer => sides.is_local_server = true,
                NetworkType::DedicatedServer => sides.is_dedicated_server = true,
            }
            i = i + 1;
        }
        assert(types@.take(types@.len() as int) =~= types@);
        sides
    }
}

/// What the messaging plugin adds to an application.
#[derive(Debug, Clone, Copy, PartialEq, Eq, Structural)]
pub struct PluginSetup {
    /// Add the registry of messages that come from a server.
    pub init_client_registry: bool,
    /// Run the system that reads the messages that come from a server.
    pub check_messages_from_server: bool,
    /// Add the registry of messages that come from clients.
    pub init_server_registry: bool,
    /// Run the system that reads the messages that come from clients.
    pub check_messages_from_client: bool,
}

/// Whether the application receives messages from a server: a client does,
/// and so does a local server, which runs a client beside it.
pub open spec fn hears_server(sides: NetworkSides) -> bool {
    sides.is_client || sides.is_local_server
}

/// Whether the application receives messages from clients: a local server
/// does; a dedicated server does when the application is not also a client.
pub open spec fn hears_clients(sides: NetworkSides) -> bool {
    sides.is_local_server || (!sides.is_client && sides.is_dedicated_server)
}

/// What the messaging plugin adds to an application that plays the roles
/// `sides`: the part that hears a server where it hears one, the part that
/// hears clients where it hears them.
pub open spec fn plugin_setup(sides: NetworkSides) -> PluginSetup {
    PluginSetup {
        init_client_registry: hears_server(sides),
        check_messages_from_server: hears_server(sides),
        init_server_registry: hears_clients(sides),
        check_messages_from_client: hears_clients(sides),
    }
}

/// What the messaging plugin adds to an application that plays the roles
/// `sides`.
pub fn plan_plugin_setup(sides: NetworkSides) -> (setup: PluginSetup)
    ensures
        setup == plugin_setup(sides),
{
    let mut setup = PluginSetup {
        init_client_registry: false,
        check_messages_from_server: false,
        init_server_registry: false,
        check_messages_from_client: false,
    };
    if sides.is_client || sides.is_local_server {
        setup.init_client_registry = true;
        setup.check_messages_from_server = true;
        if sides.is_local_server {
            setup.init_server_registry = true;
            setup.check_messages_from_client = true;
        }
    } else if sides.is_dedicated_server {
        setup.init_server_registry = true;
        setup.check_messages_from_client = true;
    }
    setup
}

/// What registering one message type does.
#[derive(Debug, Clone, Copy, PartialEq, Eq, Structural)]
pub struct RegistrationPlan {
    /// Add the event that carries this type when it comes from a server.
    pub add_from_server_event: bool,
    /// Add the event that carries this type when it comes from a client.
    pub add_from_client_event: bool,
    /// Give the type an id in the registry of messages from a server.
    pub register_client: bool,
    /// Give the type an id in the registry of messages from clients.
    pub register_server: bool,
}

/// What registering a message type does on an application that plays the
/// roles `sides`, where `from_server_known` and `from_client_known` tell
/// whether the events that carry the type already exist: each side that the
/// application hears, and that does not know the type yet, gets its event and
/// an id for the type. A type whose event already exists was registered
/// before, and is not registered again on that side.
pub open spec fn registration(
    sides: NetworkSides,
    from_server_known: bool,
    from_client_known: bool,
) -> RegistrationPlan {
    RegistrationPlan {
        add_from_server_event: hears_server(sides) && !from_server_known,
        add_from_client_event: hears_clients(sides) && !from_client_known,
        register_client: hears_server(sides) && !from_server_known,
        register_server: hears_clients(sides) && !from_client_known,
    }
}

/// Decides what registering a message type does; see [`registration`].
pub fn plan_registration(sides: NetworkSides, from_server_known: bool, from_client_known: bool) -> (plan: RegistrationPlan)
    ensures
        plan == registration(sides, from_server_known, from_client_known),
        from_server_known ==> !plan.register_client && !plan.add_from_server_event,
        from_client_known ==> !plan.register_server && !plan.add_from_client_event,
{
    let mut plan = RegistrationPlan {
        add_from_server_event: false,
        add_from_client_event: false,
        register_client: false,
        register_server: false,
    };
    let mut found_message_client = false;
    let mut found_message_server = false;
    if sides.is_client || sides.is_local_server {
        if !from_server_known {
            plan.add_from_server_event = true;
        } else {
            found_message_client = true;
        }
        if sides.is_local_server {
            if !from_client_known {
                plan.add_from_client_event = true;
            } else {
                found_message_server = true;
            }
        }
    } else if sides.is_dedicated_server {
        if !from_client_known {
            plan.add_from_client_event = true;
        } else {
            found_message_server = true;
        }
    }
    if sides.is_client || sides.is_local_server {
        if !found_message_client {
            plan.register_client = true;
        }
        if !found_message_server {
            if sides.is_local_server {
                plan.register_server = true;
            }
        }
    } else if sides.is_dedicated_server {
        if !found_message_server {
            plan.register_server = true;
        }
    }
    plan
}

/// What registering a message type does, side by side: a side that already
/// knows the type (its event exists) never registers it again; a side that
/// hears it and does not know it yet gets both its event and a new id; an
/// application that hears a side (a client or a local server hears the server;
/// a local server, or a dedicated server that is not also a client, hears
/// clients) and only that side registers on it.
pub proof fn lemma_registration_by_side(
    sides: NetworkSides,
    from_server_known: bool,
    from_client_known: bool,
)
    ensures
        ({
            let plan = registration(sides, from_server_known, from_client_known);
            let server_heard = sides.is_client || sides.is_local_server;
            let clients_heard = sides.is_local_server || (sides.is_dedicated_server
                && !sides.is_client);
            &&& from_server_known ==> !plan.register_client && !plan.add_from_server_event
            &&& from_client_known ==> !plan.register_server && !plan.add_from_client_event
            &&& !from_server_known && server_heard ==> plan.register_client
                && plan.add_from_server_event
            &&& !from_client_known && clients_heard ==> plan.register_server
                && plan.add_from_client_event
            &&& !server_heard ==> !plan.register_client && !plan.add_from_server_event
            &&& !clients_heard ==> !plan.register_server && !plan.add_from_client_event
        }),
{
}

/// Registering a message type only ever writes to a registry, and adds an
/// event that only ever gets read by a system, that the plugin set up on the
/// same application; and once a type is known on both sides, registering it
/// again changes nothing.
pub proof fn lemma_registration_within_setup(
    sides: NetworkSides,
    from_server_known: bool,
    from_client_known: bool,
)
    ensures
        ({
            let plan = registration(sides, from_server_known, from_client_known);
            let setup = plugin_setup(sides);
            &&& plan.register_client ==> setup.init_client_registry
            &&& plan.register_server ==> setup.init_server_registry
            &&& plan.add_from_server_event ==> setup.check_messages_from_server
            &&& plan.add_from_client_event ==> setup.check_messages_from_client
        }),
        registration(sides, true, true) == (RegistrationPlan {
            add_from_server_event: false,
            add_from_client_event: false,
            register_client: false,
            register_server: false,
        }),
{
}

/// The envelope in which a message travels: the id that its type has on the
/// receiving side, and the message's own bytes.
#[derive(Debug, Clone, PartialEq, Eq)]
pub struct MessageInfos {
    pub message_id: u32,
    pub message: Vec<u8>,
}

/// Why an envelope could not be written.
#[derive(Debug, Clone, Copy, PartialEq, Eq, Structural)]
pub enum EncodeError {
    /// The `postcard` serializer reported a failure.
    Serialize,
}

/// The variable-length form of `n`: seven bits per byte, least significant
/// group first, the top bit set on every byte but the last.
pub open spec fn varint(n: nat) -> Seq<u8>
    decreases n,
{
    if n < 128 {
        seq![n as u8]
    } else {
        seq![(n % 128 + 128) as u8] + varint(n / 128)
    }
}

/// The wire form of an envelope: the id and the length of the message as
/// variable-length numbers, then the message bytes.
pub open spec fn message_infos_wire(message_id: u32, message: Seq<u8>) -> Seq<u8> {
    varint(message_id as nat) + varint(message.len()) + message
}

/// The envelope, as (id, message bytes), that `postcard` reads from `bytes`,
/// if it reads one.
pub uninterp spec fn postcard_message_infos(bytes: Seq<u8>) -> Option<(u32, Seq<u8>)>;

#[verifier::external_type_specification]
#[verifier::external_body]
pub struct ExPostcardError(postcard::Error);

/// Calls `postcard::to_stdvec` on the pair (id, message), which postcard
/// writes exactly as it writes an envelope struct with these two fields.
/// Trusted: postcard's source writes a `u32` and the length of a sequence as
/// the variable-length numbers of [`varint`], a byte as itself, and nothing
/// between the fields; and the call succeeds, because postcard's `Vec` output
/// never reports a failure and serde hands it the exact length of the slice.
#[verifier::external_body]
fn postcard_to_stdvec(message_id: u32, message: &[u8]) -> (result: Result<Vec<u8>, postcard::Error>)
    ensures
        result is Ok,
        result matches Ok(bytes) ==> bytes@ == message_infos_wire(message_id, message@),
{
    postcard::to_stdvec(&(message_id, message))
}

/// Calls `postcard::from_bytes` for the pair (id, message), which postcard
/// reads exactly as it reads an envelope struct with these two fields.
/// Trusted: the result is the one that [`postcard_message_infos`] names; and,
/// as postcard's documentation and source show, bytes that start with an
/// envelope that postcard wrote read back as that envelope, whatever bytes
/// follow it. What postcard makes of other bytes is not stated.
#[verifier::external_body]
fn postcard_from_bytes(bytes: &[u8]) -> (result: Result<(u32, Vec<u8>), postcard::Error>)
    ensures
        result matches Ok((id, m)) ==> postcard_message_infos(bytes@) == Some((id, m@)),
        result is Err ==> postcard_message_infos(bytes@) is None,
        forall|id: u32, m: Seq<u8>, rest: Seq<u8>|
            #[trigger] (message_infos_wire(id, m) + rest) == bytes@ ==> result is Ok
                && result->Ok_0.0 == id && result->Ok_0.1@ == m,
{
    postcard::from_bytes::<(u32, Vec<u8>)>(bytes)
}

/// Writes an envelope in its wire form; writing always succeeds.
pub fn encode_message_infos(infos: &MessageInfos) -> (result: Result<Vec<u8>, EncodeError>)
    ensures
        result is Ok,
        result matches Ok(bytes) ==> bytes@ == message_infos_wire(
            infos.message_id,
            infos.message@,
        ),
{
    match postcard_to_stdvec(infos.message_id, infos.message.as_slice()) {
        Ok(bytes) => Ok(bytes),
        Err(_) => Err(EncodeError::Serialize),
    }
}

/// The message ids of one side of the network and the message type that each
/// id stands for. A type is named by a key that the application chooses.
pub struct MessageRegistry {
    last_id: u32,
    entries: HashMap<u32, u64>,
}

/// The message type that `message_id` stands for in `entries`, if any.
pub open spec fn lookup(entries: Map<u32, u64>, message_id: u32) -> Option<u64> {
    if entries.contains_key(message_id) {
        Some(entries[message_id])
    } else {
        None
    }
}

impl View for MessageRegistry {
    /// The last id given out, and the type of each id given out.
    type V = (u32, Map<u32, u64>);

    closed spec fn view(&self) -> (u32, Map<u32, u64>) {
        (self.last_id, self.entries@)
    }
}

impl MessageRegistry {
    /// Ids are given out from 1 upwards, none skipped: the ids in use are
    /// exactly 1 to the last one given out.
    #[verifier::type_invariant]
    spec fn ids_given_out(self) -> bool {
        forall|k: u32| #[trigger] self.entries@.contains_key(k) <==> 1 <= k <= self.last_id
    }

    /// An empty registry.
    pub fn new() -> (registry: Self)
        ensures
            registry@.0 == 0,
            registry@.1 == Map::<u32, u64>::empty(),
    {
        MessageRegistry { last_id: 0, entries: HashMap::new() }
    }

    /// Gives the message type `type_key` the next id, one more than the last
    /// one given out, and returns it. The id was free: no earlier type loses
    /// its id.
    pub fn register(&mut self, type_key: u64) -> (message_id: u32)
        requires
            old(self)@.0 < u32::MAX,
        ensures
            message_id == old(self)@.0 + 1,
            !old(self)@.1.contains_key(message_id),
            final(self)@.0 == message_id,
            final(self)@.1 == old(self)@.1.insert(message_id, type_key),
    {
        proof {
            use_type_invariant(&*self);
        }
        let new_value = self.last_id + 1;
        let mut previous = MessageRegistry::new();
        std::mem::swap(&mut previous, self);
        let MessageRegistry { last_id: _, mut entries } = previous;
        entries.insert(new_value, type_key);
        assert forall|k: u32| #[trigger] entries@.contains_key(k) <==> 1 <= k <= new_value by {
            if k != new_value {
                assert(old(self).entries@.contains_key(k) <==> 1 <= k <= old(self).last_id);
            }
        }
        *self = MessageRegistry { last_id: new_value, entries };
        new_value
    }

    /// The message type that `message_id` stands for, if any.
    pub fn get(&self, message_id: u32) -> (type_key: Option<u64>)
        ensures
            type_key == lookup(self@.1, message_id),
            type_key is Some <==> 1 <= message_id <= self@.0,
    {
        proof {
            use_type_invariant(self);
        }
        match self.entries.get(&message_id) {
            Some(k) => Some(*k),
            None => None,
        }
    }

    /// The last id given out (0 while none is).
    pub fn last_id(&self) -> (id: u32)
        ensures
            id == self@.0,
    {
        self.last_id
    }
}

/// A registry reads back what it registered: after a type gets the next id,
/// that id stands for the type, every other id stands for what it stood for
/// before, and an envelope with the new id is routed to the new type.
pub proof fn lemma_lookup_after_register(
    entries: Map<u32, u64>,
    last_id: u32,
    type_key: u64,
    other: u32,
    payload: Seq<u8>,
)
    requires
        last_id < u32::MAX,
    ensures
        ({
            let id = (last_id + 1) as u32;
            let after = entries.insert(id, type_key);
            &&& lookup(after, id) == Some(type_key)
            &&& other != id ==> lookup(after, other) == lookup(entries, other)
            &&& route(after, Some((id, payload))) == Some((id, type_key, payload))
        }),
{
}

/// A registry that has registered the types `keys`, in this order: the ids
/// in use are exactly 1 to the number of types, and the id `i + 1` stands for
/// the `i`-th type registered.
pub open spec fn registered_in_order(entries: Map<u32, u64>, last_id: u32, keys: Seq<u64>) -> bool {
    &&& last_id == keys.len()
    &&& forall|k: u32| #[trigger] entries.contains_key(k) <==> 1 <= k <= last_id
    &&& forall|i: int| 0 <= i < keys.len() ==> #[trigger] entries[(i + 1) as u32] == keys[i]
}

/// Ids follow the order of registration: a new registry has registered
/// nothing, and each [`MessageRegistry::register`] of a type extends the
/// order by that type. So two registries that register the same types in the
/// same order (on a client and on its server) agree on every id.
pub proof fn lemma_registration_order(
    entries: Map<u32, u64>,
    last_id: u32,
    keys: Seq<u64>,
    type_key: u64,
    other_entries: Map<u32, u64>,
    other_last_id: u32,
)
    ensures
        registered_in_order(Map::empty(), 0, Seq::empty()),
        registered_in_order(entries, last_id, keys) && last_id < u32::MAX ==> registered_in_order(
            entries.insert((last_id + 1) as u32, type_key),
            (last_id + 1) as u32,
            keys.push(type_key),
        ),
        registered_in_order(entries, last_id, keys) && registered_in_order(
            other_entries,
            other_last_id,
            keys,
        ) ==> entries == other_entries && last_id == other_last_id,
{
    if registered_in_order(entries, last_id, keys) && last_id < u32::MAX {
        let id = (last_id + 1) as u32;
        let after = entries.insert(id, type_key);
        let keys2 = keys.push(type_key);
        assert forall|i: int| 0 <= i < keys2.len() implies #[trigger] after[(i + 1) as u32]
            == keys2[i] by {
            if i < keys.len() {
                assert(entries[(i + 1) as u32] == keys[i]);
            }
        }
    }
    if registered_in_order(entries, last_id, keys) && registered_in_order(
        other_entries,
        other_last_id,
        keys,
    ) {
        assert forall|k: u32| #[trigger] entries.contains_key(k) implies entries[k]
            == other_entries[k] by {
            let i = k - 1;
            assert(entries[(i + 1) as u32] == keys[i]);
            assert(other_entries[(i + 1) as u32] == keys[i]);
        }
        assert(entries =~= other_entries);
    }
}

/// The id that each message type has on the side that registered it last.
pub struct MessageTypeIds {
    ids: HashMap<u64, u32>,
}

impl View for MessageTypeIds {
    type V = Map<u64, u32>;

    closed spec fn view(&self) -> Map<u64, u32> {
        self.ids@
    }
}

impl MessageTypeIds {
    /// No type has an id yet.
    pub fn new() -> (ids: Self)
        ensures
            ids@ == Map::<u64, u32>::empty(),
    {
        MessageTypeIds { ids: HashMap::new() }
    }

    /// Records that the message type `type_key` has the id `message_id`,
    /// replacing the id it had before.
    pub fn record(&mut self, type_key: u64, message_id: u32)
        ensures
            final(self)@ == old(self)@.insert(type_key, message_id),
    {
        self.ids.insert(type_key, message_id);
    }

    /// The id of the message type `type_key`, if it has one.
    pub fn get(&self, type_key: u64) -> (message_id: Option<u32>)
        ensures
            message_id == (if self@.contains_key(type_key) {
                Some(self@[type_key])
            } else {
                None
            }),
    {
        match self.ids.get(&type_key) {
            Some(id) => Some(*id),
            None => None,
        }
    }
}

/// Registers the message type `type_key` on one side: gives it the next id
/// in `registry` and records that id as the type's id, replacing the id it had
/// from a side registered before.
pub fn register_type_id(
    registry: &mut MessageRegistry,
    type_ids: &mut MessageTypeIds,
    type_key: u64,
) -> (message_id: u32)
    requires
        old(registry)@.0 < u32::MAX,
    ensures
        message_id == old(registry)@.0 + 1,
        !old(registry)@.1.contains_key(message_id),
        final(registry)@.0 == message_id,
        final(registry)@.1 == old(registry)@.1.insert(message_id, type_key),
        final(type_ids)@ == old(type_ids)@.insert(type_key, message_id),
{
    let message_id = registry.register(type_key);
    type_ids.record(type_key, message_id);
    message_id
}

/// Registering a type on the client side and then on the server side, as an
/// application that is both does, leaves the type with its server id: the
/// id recorded last is the one that holds, and other types keep theirs.
pub proof fn lemma_last_registration_wins(
    type_ids: Map<u64, u32>,
    type_key: u64,
    client_id: u32,
    server_id: u32,
    other: u64,
)
    ensures
        ({
            let after = type_ids.insert(type_key, client_id).insert(type_key, server_id);
            &&& after.contains_key(type_key)
            &&& after[type_key] == server_id
            &&& other != type_key ==> (after.contains_key(other) == type_ids.contains_key(other))
            &&& other != type_key && type_ids.contains_key(other) ==> after[other]
                == type_ids[other]
        }),
{
}

/// A received envelope whose id the registry knows: the id, the type it
/// stands for, and the message bytes to be read as that type.
#[derive(Debug, Clone, PartialEq, Eq)]
pub struct RoutedMessage {
    pub message_id: u32,
    pub type_key: u64,
    pub payload: Vec<u8>,
}

/// The routed message as plain values.
pub open spec fn routed_view(routed: Option<RoutedMessage>) -> Option<(u32, u64, Seq<u8>)> {
    match routed {
        Some(r) => Some((r.message_id, r.type_key, r.payload@)),
        None => None,
    }
}

/// Where a read envelope goes: to the type that its id stands for, or
/// nowhere when the envelope could not be read or its id is unknown.
pub open spec fn route(entries: Map<u32, u64>, envelope: Option<(u32, Seq<u8>)>) -> Option<
    (u32, u64, Seq<u8>),
> {
    match envelope {
        Some((id, payload)) => match lookup(entries, id) {
            Some(type_key) => Some((id, type_key, payload)),
            None => None,
        },
        None => None,
    }
}

/// Routes an envelope that has already been read, or `None` for one that
/// could not be read.
pub fn route_decoded(registry: &MessageRegistry, envelope: Option<(u32, Vec<u8>)>) -> (routed:
    Option<RoutedMessage>)
    ensures
        routed_view(routed) == route(
            registry@.1,
            match envelope {
                Some((id, m)) => Some((id, m@)),
                None => None,
            },
        ),
{
    match envelope {
        Some((message_id, payload)) => match registry.get(message_id) {
            Some(type_key) => Some(RoutedMessage { message_id, type_key, payload }),
            None => None,
        },
        None => None,
    }
}

/// Reads the envelope in `bytes` and routes it. An envelope that
/// [`encode_message_infos`] wrote is read back as written.
pub fn route_message(registry: &MessageRegistry, bytes: &[u8]) -> (routed: Option<RoutedMessage>)
    ensures
        routed_view(routed) == route(registry@.1, postcard_message_infos(bytes@)),
        forall|id: u32, m: Seq<u8>, rest: Seq<u8>|
            #[trigger] (message_infos_wire(id, m) + rest) == bytes@ ==> routed_view(routed)
                == route(registry@.1, Some((id, m))),
{
    let envelope = match postcard_from_bytes(bytes) {
        Ok(pair) => Some(pair),
        Err(_) => None,
    };
    route_decoded(registry, envelope)
}

/// Where each of a sequence of received byte strings goes, skipping those
/// that go nowhere.
pub open spec fn routes(entries: Map<u32, u64>, received: Seq<Seq<u8>>) -> Seq<(u32, u64, Seq<u8>)>
    decreases received.len(),
{
    if received.len() == 0 {
        Seq::empty()
    } else {
        let earlier = routes(entries, received.drop_last());
        match route(entries, postcard_message_infos(received.last())) {
            Some(r) => earlier.push(r),
            None => earlier,
        }
    }
}

/// Where one received byte string goes.
pub open spec fn route_of(entries: Map<u32, u64>) -> spec_fn(Seq<u8>) -> Option<(u32, u64, Seq<u8>)> {
    |bytes: Seq<u8>| route(entries, postcard_message_infos(bytes))
}

/// Routing a batch keeps exactly the byte strings that go somewhere, each
/// routed as on its own, in the order received: every one that routes yields
/// its own entry, whatever its payload or id, and nothing else is kept.
pub proof fn lemma_routes_keep_every_routable(entries: Map<u32, u64>, received: Seq<Seq<u8>>)
    ensures
        routes(entries, received) == received.filter_map(route_of(entries)),
    decreases received.len(),
{
    if received.len() > 0 {
        lemma_routes_keep_every_routable(entries, received.drop_last());
        let rest = received.drop_last().filter_map(route_of(entries));
        match route(entries, postcard_message_infos(received.last())) {
            Some(r) => {
                assert(rest.push(r) =~= rest + seq![r]);
            },
            None => {},
        }
    }
}

/// Routes each received byte string in turn, keeping those that go
/// somewhere, in the order received.
pub fn route_messages(registry: &MessageRegistry, received: &Vec<Vec<u8>>) -> (routed: Vec<RoutedMessage>)
    ensures
        routed@.map_values(|r: RoutedMessage| (r.message_id, r.type_key, r.payload@)) == routes(
            registry@.1,
            received@.map_values(|m: Vec<u8>| m@),
        ),
        routed@.map_values(|r: RoutedMessage| (r.message_id, r.type_key, r.payload@))
            == received@.map_values(|m: Vec<u8>| m@).filter_map(route_of(registry@.1)),
{
    let mut routed: Vec<RoutedMessage> = Vec::new();
    let ghost all = received@.map_values(|m: Vec<u8>| m@);
    let mut i: usize = 0;
    while i < received.len()
        invariant
            i <= received@.len(),
            all == received@.map_values(|m: Vec<u8>| m@),
            routed@.map_values(|r: RoutedMessage| (r.message_id, r.type_key, r.payload@))
                == routes(registry@.1, all.take(i as int)),
        decreases received@.len() - i,
    {
        let ghost before = routed@;
        let r = route_message(registry, received[i].as_slice());
        proof {
            assert(all.take(i + 1).drop_last() =~= all.take(i as int));
            assert(all.take(i + 1).last() == received@[i as int]@);
        }
        match r {
            Some(m) => {
                routed.push(m);
                assert(routed@.map_values(|r: RoutedMessage| (r.message_id, r.type_key, r.payload@))
                    =~= before.map_values(
                    |r: RoutedMessage| (r.message_id, r.type_key, r.payload@),
                ).push((m.message_id, m.type_key, m.payload@)));
            },
            None => {},
        }
        i = i + 1;
    }
    assert(all.take(received@.len() as int) =~= all);
    proof {
        lemma_routes_keep_every_routable(registry@.1, all);
    }
    routed
}

/// The event that a routed message becomes on the receiving application.
#[derive(Debug, Clone, Copy, PartialEq, Eq)]
pub enum DispatchTarget {
    /// A message that came from a server.
    FromServer { connection_id: u32, port_id: u32 },
    /// A message that came from a client, with the client's peer id, if it
    /// sent one, and its session id.
    FromClient {
        connection_id: u32,
        port_id: u32,
        peer_id: Option<UuidBytes>,
        session_id: UuidBytes,
    },
}

/// Decides the event that a message received on `network_type` becomes: on a
/// client it came from the server; anywhere else it came from a client, whose
/// session id must be known.
pub fn dispatch_target(
    network_type: NetworkType,
    connection_id: u32,
    port_id: u32,
    peer_id: Option<UuidBytes>,
    session_id: Option<UuidBytes>,
) -> (target: DispatchTarget)
    requires
        network_type != NetworkType::Client ==> session_id is Some,
    ensures
        network_type == NetworkType::Client ==> target == (DispatchTarget::FromServer {
            connection_id,
            port_id,
        }),
        network_type != NetworkType::Client ==> target == (DispatchTarget::FromClient {
            connection_id,
            port_id,
            peer_id,
            session_id: session_id.unwrap(),
        }),
{
    match network_type {
        NetworkType::Client => DispatchTarget::FromServer { connection_id, port_id },
        _ => match session_id {
            Some(session_id) => DispatchTarget::FromClient {
                connection_id,
                port_id,
                peer_id,
                session_id,
            },
            None => DispatchTarget::FromServer { connection_id, port_id },
        },
    }
}

/// A byte string received from a client, with the client's session id and,
/// if it sent one, its peer id.
#[derive(Debug, Clone, PartialEq, Eq)]
pub struct PeerMessage {
    pub session_id: UuidBytes,
    pub peer_id: Option<UuidBytes>,
    pub bytes: Vec<u8>,
}

/// A routed message together with the event it becomes.
#[derive(Debug, Clone, PartialEq, Eq)]
pub struct Delivery {
    pub target: DispatchTarget,
    pub routed: RoutedMessage,
}

/// The deliveries that the byte strings received from clients on port
/// `port_id` of connection `connection_id` make: each one that goes somewhere
/// becomes an event from its client, in the order received.
pub open spec fn peer_deliveries(
    entries: Map<u32, u64>,
    connection_id: u32,
    port_id: u32,
    received: Seq<PeerMessage>,
) -> Seq<(DispatchTarget, (u32, u64, Seq<u8>))>
    decreases received.len(),
{
    if received.len() == 0 {
        Seq::empty()
    } else {
        let earlier = peer_deliveries(entries, connection_id, port_id, received.drop_last());
        let m = received.last();
        match route(entries, postcard_message_infos(m.bytes@)) {
            Some(r) => earlier.push(
                (
                    DispatchTarget::FromClient {
                        connection_id,
                        port_id,
                        peer_id: m.peer_id,
                        session_id: m.session_id,
                    },
                    r,
                ),
            ),
            None => earlier,
        }
    }
}

/// The delivery that one byte string from a client makes, if it routes.
pub open spec fn peer_delivery_of(entries: Map<u32, u64>, connection_id: u32, port_id: u32) -> spec_fn(
    PeerMessage,
) -> Option<(DispatchTarget, (u32, u64, Seq<u8>))> {
    |m: PeerMessage|
        match route(entries, postcard_message_infos(m.bytes@)) {
            Some(r) => Some(
                (
                    DispatchTarget::FromClient {
                        connection_id,
                        port_id,
                        peer_id: m.peer_id,
                        session_id: m.session_id,
                    },
                    r,
                ),
            ),
            None => None,
        }
}

/// Every byte string received from a client that routes somewhere makes its
/// own delivery, in the order received, as an event from that client on this
/// connection and port; those that route nowhere make none. Two messages of
/// the same type from the same client make two deliveries.
pub proof fn lemma_peer_deliveries_keep_every_routable(
    entries: Map<u32, u64>,
    connection_id: u32,
    port_id: u32,
    received: Seq<PeerMessage>,
)
    ensures
        peer_deliveries(entries, connection_id, port_id, received) == received.filter_map(
            peer_delivery_of(entries, connection_id, port_id),
        ),
    decreases received.len(),
{
    if received.len() > 0 {
        lemma_peer_deliveries_keep_every_routable(
            entries,
            connection_id,
            port_id,
            received.drop_last(),
        );
        let f = peer_delivery_of(entries, connection_id, port_id);
        let rest = received.drop_last().filter_map(f);
        match f(received.last()) {
            Some(d) => {
                assert(rest.push(d) =~= rest + seq![d]);
            },
            None => {},
        }
    }
}

/// The deliveries as plain values.
pub open spec fn deliveries_view(deliveries: Seq<Delivery>) -> Seq<(DispatchTarget, (u32, u64, Seq<u8>))> {
    deliveries.map_values(
        |d: Delivery| (d.target, (d.routed.message_id, d.routed.type_key, d.routed.payload@)),
    )
}

/// Routes the byte strings received from clients on one port, and pairs
/// each one that goes somewhere with the event it becomes.
pub fn route_peer_messages(
    registry: &MessageRegistry,
    connection_id: u32,
    port_id: u32,
    received: Vec<PeerMessage>,
) -> (deliveries: Vec<Delivery>)
    ensures
        deliveries_view(deliveries@) == peer_deliveries(
            registry@.1,
            connection_id,
            port_id,
            received@,
        ),
        deliveries_view(deliveries@) == received@.filter_map(
            peer_delivery_of(registry@.1, connection_id, port_id),
        ),
{
    let mut deliveries: Vec<Delivery> = Vec::new();
    let mut i: usize = 0;
    while i < received.len()
        invariant
            i <= received@.len(),
            deliveries_view(deliveries@) == peer_deliveries(
                registry@.1,
                connection_id,
                port_id,
                received@.take(i as int),
            ),
        decreases received@.len() - i,
    {
        let ghost before = deliveries@;
        let m = &received[i];
        let r = route_message(registry, m.bytes.as_slice());
        proof {
            assert(received@.take(i + 1).drop_last() =~= received@.take(i as int));
            assert(received@.take(i + 1).last() == received@[i as int]);
        }
        match r {
            Some(routed) => {
                let target = dispatch_target(
                    NetworkType::DedicatedServer,
                    connection_id,
                    port_id,
                    m.peer_id,
                    Some(m.session_id),
                );
                let d = Delivery { target, routed };
                deliveries.push(d);
                assert(deliveries_view(deliveries@) =~= deliveries_view(before).push(
                    (d.target, (d.routed.message_id, d.routed.type_key, d.routed.payload@)),
                ));
            },
            None => {},
        }
        i = i + 1;
    }
    assert(received@.take(received@.len() as int) =~= received@);
    proof {
        lemma_peer_deliveries_keep_every_routable(registry@.1, connection_id, port_id, received@);
    }
    deliveries
}

} // verus!
