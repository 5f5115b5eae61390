//! The mathematical model of the broker: the four ledgers as maps and sets,
//! and the pure transition each server action performs on them. The
//! executable state in `state` refines this model; the laws at the end are
//! proved of the transitions alone.

use vstd::prelude::*;

use crate::protocol::DeviceModel;

verus! {

/// Model of one live device connection.
pub struct ConnModel {
    pub device_id: Seq<char>,
    pub name: Seq<char>,
    pub authenticated: bool,
    /// Identifies the outbound queue of the socket task owning this entry;
    /// a replacement connection carries a different queue.
    pub queue: u64,
}

/// Model of one outstanding pairing offer.
pub struct PairingModel {
    pub device_id: Seq<char>,
    pub name: Seq<char>,
}

/// The whole broker state: persistent registry, live connections,
/// outstanding pairing codes, and pending command ids.
pub struct StateModel {
    pub registry: Map<Seq<char>, DeviceModel>,
    pub connections: Map<Seq<char>, ConnModel>,
    pub pairings: Map<u32, PairingModel>,
    pub pending: Set<Seq<char>>,
    pub api_key: Seq<char>,
    pub apns_configured: bool,
}

impl StateModel {
    /// Structural soundness: every record agrees with its key, every
    /// persisted token is non-empty, and every pairing code has six digits.
    pub open spec fn inv(self) -> bool {
        &&& forall|id: Seq<char>|
            self.registry.dom().contains(id) ==> (#[trigger] self.registry[id]).id == id
                && self.registry[id].token.len() > 0
        &&& forall|id: Seq<char>|
            self.connections.dom().contains(id) ==> (#[trigger] self.connections[id]).device_id
                == id
        &&& forall|code: u32|
            #[trigger] self.pairings.dom().contains(code) ==> 100000 <= code <= 999999
    }

    /// A device counts as online when it has an authenticated connection.
    pub open spec fn online(self, id: Seq<char>) -> bool {
        self.connections.dom().contains(id) && self.connections[id].authenticated
    }

    /// Whether a device would re-authenticate successfully with `token`.
    pub open spec fn auth_ok(self, id: Seq<char>, token: Seq<char>) -> bool {
        self.registry.dom().contains(id) && self.registry[id].token == token
    }
}

/// A device said hello and is already known: record the (unauthenticated)
/// connection, replacing any prior entry for the same device.
pub open spec fn hello_known_step(
    s: StateModel,
    id: Seq<char>,
    name: Seq<char>,
    queue: u64,
) -> StateModel {
    StateModel {
        connections: s.connections.insert(
            id,
            ConnModel { device_id: id, name: name, authenticated: false, queue: queue },
        ),
        ..s
    }
}

/// A device said hello and is unknown: record the connection and offer the
/// freshly drawn pairing code.
pub open spec fn hello_unknown_step(
    s: StateModel,
    id: Seq<char>,
    name: Seq<char>,
    queue: u64,
    code: u32,
) -> StateModel {
    StateModel {
        pairings: s.pairings.insert(code, PairingModel { device_id: id, name: name }),
        ..hello_known_step(s, id, name, queue)
    }
}

/// A connected device presented the right token: mark it authenticated.
pub open spec fn auth_accept_step(s: StateModel, id: Seq<char>) -> StateModel {
    StateModel {
        connections: s.connections.insert(
            id,
            ConnModel { authenticated: true, ..s.connections[id] },
        ),
        ..s
    }
}

/// A connected device presented a wrong token: evict the stale registry
/// record and offer a new pairing code under the connection's name.
pub open spec fn auth_reject_step(s: StateModel, id: Seq<char>, code: u32) -> StateModel {
    StateModel {
        registry: s.registry.remove(id),
        pairings: s.pairings.insert(
            code,
            PairingModel { device_id: id, name: s.connections[id].name },
        ),
        ..s
    }
}

/// A response (or a timeout, or a closed slot) settled a pending command.
pub open spec fn settle_step(s: StateModel, cmd_id: Seq<char>) -> StateModel {
    StateModel { pending: s.pending.remove(cmd_id), ..s }
}

/// A live dispatch registered a reply slot for a fresh command id.
pub open spec fn open_command_step(s: StateModel, cmd_id: Seq<char>) -> StateModel {
    StateModel { pending: s.pending.insert(cmd_id), ..s }
}

/// A connected device reported its push token: store it on the record.
pub open spec fn push_token_step(s: StateModel, id: Seq<char>, token: Seq<char>) -> StateModel {
    StateModel {
        registry: s.registry.insert(
            id,
            DeviceModel { push_token: Some(token), ..s.registry[id] },
        ),
        ..s
    }
}

/// A connected device reported its VoIP token: store it on the record.
pub open spec fn voip_token_step(s: StateModel, id: Seq<char>, token: Seq<char>) -> StateModel {
    StateModel {
        registry: s.registry.insert(
            id,
            DeviceModel { voip_token: Some(token), ..s.registry[id] },
        ),
        ..s
    }
}

/// The device record a successful pair call persists.
pub open spec fn paired_device(p: PairingModel, token: Seq<char>, now: u64) -> DeviceModel {
    DeviceModel {
        id: p.device_id,
        name: p.name,
        token: token,
        paired_at: now,
        push_token: None,
        voip_token: None,
    }
}

/// A pair call consumed `code`: persist the device under a fresh token and
/// mark its live connection (if any) authenticated.
pub open spec fn pair_step(s: StateModel, code: u32, token: Seq<char>, now: u64) -> StateModel {
    let p = s.pairings[code];
    StateModel {
        registry: s.registry.insert(p.device_id, paired_device(p, token, now)),
        pairings: s.pairings.remove(code),
        connections: if s.connections.dom().contains(p.device_id) {
            s.connections.insert(
                p.device_id,
                ConnModel { authenticated: true, ..s.connections[p.device_id] },
            )
        } else {
            s.connections
        },
        ..s
    }
}

/// A delete call removed the device from registry and connection table.
pub open spec fn delete_step(s: StateModel, id: Seq<char>) -> StateModel {
    StateModel { registry: s.registry.remove(id), connections: s.connections.remove(id), ..s }
}

/// A device socket terminated: its entry leaves the table, but only if the
/// entry still belongs to that socket's queue — a replacement stays.
pub open spec fn disconnect_step(s: StateModel, id: Seq<char>, queue: u64) -> StateModel {
    if s.connections.dom().contains(id) && s.connections[id].queue == queue {
        StateModel { connections: s.connections.remove(id), ..s }
    } else {
        s
    }
}

/// A server restart: only device identity survives; connections, pairing
/// offers and pending commands are ephemeral.
pub open spec fn restart(s: StateModel, api_key: Seq<char>, apns: bool) -> StateModel {
    StateModel {
        registry: s.registry,
        connections: Map::empty(),
        pairings: Map::empty(),
        pending: Set::empty(),
        api_key: api_key,
        apns_configured: apns,
    }
}

// ---------------------------------------------------------------------------
// Laws
// ---------------------------------------------------------------------------

/// Pairing is one-shot: once a pair call has consumed a code, a second pair
/// call with the same code misses, whatever token or time it brings.
pub proof fn lemma_pair_consumes_code(s: StateModel, code: u32, token: Seq<char>, now: u64)
    requires
        s.pairings.dom().contains(code),
    ensures
        !pair_step(s, code, token, now).pairings.dom().contains(code),
{
}

/// A successful pair survives a restart: the token it issued still
/// re-authenticates the device against the reloaded registry.
pub proof fn lemma_pair_restart_reauth(
    s: StateModel,
    code: u32,
    token: Seq<char>,
    now: u64,
    api_key: Seq<char>,
    apns: bool,
)
    requires
        s.pairings.dom().contains(code),
    ensures
        restart(pair_step(s, code, token, now), api_key, apns).auth_ok(
            s.pairings[code].device_id,
            token,
        ),
{
}

/// Deleting a device forgets it: a later hello from the same device finds
/// no registry record, so it is offered a pairing code rather than being
/// asked to re-authenticate silently.
pub proof fn lemma_delete_then_hello_pairs(s: StateModel, id: Seq<char>)
    ensures
        !delete_step(s, id).registry.dom().contains(id),
{
}

/// Settling a command removes its ledger entry: whether the device
/// answered, the timeout fired, or the slot closed, the id does not leak.
pub proof fn lemma_settle_removes(s: StateModel, cmd_id: Seq<char>)
    ensures
        !settle_step(s, cmd_id).pending.contains(cmd_id),
{
}

/// The happy path composes: a hello from an unknown device followed by a
/// pair call that consumes its code leaves the device registered under the
/// issued token, with its live connection authenticated.
pub proof fn lemma_hello_then_pair(
    s: StateModel,
    id: Seq<char>,
    name: Seq<char>,
    queue: u64,
    code: u32,
    token: Seq<char>,
    now: u64,
)
    ensures
        pair_step(hello_unknown_step(s, id, name, queue, code), code, token, now).auth_ok(
            id,
            token,
        ),
        pair_step(hello_unknown_step(s, id, name, queue, code), code, token, now).online(id),
{
}

/// Settling an unknown command id is harmless: the state is unchanged.
pub proof fn lemma_settle_unknown_id_noop(s: StateModel, cmd_id: Seq<char>)
    requires
        !s.pending.contains(cmd_id),
    ensures
        settle_step(s, cmd_id) == s,
{
    assert(s.pending.remove(cmd_id) =~= s.pending);
    assert(settle_step(s, cmd_id) == StateModel { pending: s.pending, ..s });
}

/// Every transition preserves the structural invariant; pairing codes may
/// only enter through a six-digit draw and registry records only with a
/// non-empty token.
pub proof fn lemma_steps_preserve_inv(
    s: StateModel,
    id: Seq<char>,
    name: Seq<char>,
    queue: u64,
    code: u32,
    token: Seq<char>,
    cmd_id: Seq<char>,
    now: u64,
)
    requires
        s.inv(),
        100000 <= code <= 999999,
        token.len() > 0,
    ensures
        hello_known_step(s, id, name, queue).inv(),
        hello_unknown_step(s, id, name, queue, code).inv(),
        s.connections.dom().contains(id) ==> auth_accept_step(s, id).inv(),
        s.connections.dom().contains(id) ==> auth_reject_step(s, id, code).inv(),
        settle_step(s, cmd_id).inv(),
        open_command_step(s, cmd_id).inv(),
        s.registry.dom().contains(id) ==> push_token_step(s, id, token).inv(),
        s.registry.dom().contains(id) ==> voip_token_step(s, id, token).inv(),
        s.pairings.dom().contains(code) ==> pair_step(s, code, token, now).inv(),
        delete_step(s, id).inv(),
        disconnect_step(s, id, queue).inv(),
        restart(s, s.api_key, s.apns_configured).inv(),
{
}

} // verus!
