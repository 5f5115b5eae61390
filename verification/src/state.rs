//! The broker's shared state: device registry, connection table, pairing
//! ledger and pending-command ledger, with every mutation proved to refine
//! the transitions of `model`.

use vstd::prelude::*;

use crate::model::{
    auth_accept_step, auth_reject_step, delete_step, disconnect_step, hello_known_step,
    hello_unknown_step, open_command_step, pair_step, push_token_step, settle_step,
    voip_token_step, ConnModel, PairingModel, StateModel,
};
use crate::outside::{draw_pairing_code, new_uuid_string};
use crate::protocol::{
    CommandResponse, Device, DeviceInfo, DeviceModel, ErrorInfo, PairResponse, ServerMessage,
    ServerStatus,
};
use crate::strutil::{format_code, spec_parse_code};

verus! {

/// One live device connection. The socket itself lives outside the core;
/// `queue` identifies the outbound queue of the owning socket task.
#[derive(Debug)]
pub struct DeviceConnection {
    pub device_id: String,
    pub name: String,
    pub authenticated: bool,
    pub queue: u64,
}

impl View for DeviceConnection {
    type V = ConnModel;

    open spec fn view(&self) -> ConnModel {
        ConnModel {
            device_id: self.device_id@,
            name: self.name@,
            authenticated: self.authenticated,
            queue: self.queue,
        }
    }
}

/// The device a pairing code was issued for.
#[derive(Debug)]
pub struct PendingPairing {
    pub device_id: String,
    pub name: String,
}

impl View for PendingPairing {
    type V = PairingModel;

    open spec fn view(&self) -> PairingModel {
        PairingModel { device_id: self.device_id@, name: self.name@ }
    }
}

/// The shared server state.
pub struct AppState {
    pub connections: Vec<DeviceConnection>,
    pub devices: Vec<Device>,
    pub pending_pairings: Vec<(u32, PendingPairing)>,
    pub pending_commands: Vec<String>,
    pub api_key: String,
    pub apns_configured: bool,
}

/// What the session handler answers to an authentication attempt.
#[derive(Debug)]
pub enum AuthOutcome {
    /// The token matched: the connection is authenticated now.
    Accepted { msg: ServerMessage },
    /// The token was wrong: the stale registry record was evicted (the
    /// caller must persist the registry) and a new pairing code is offered.
    Rejected { msg: ServerMessage },
    /// No live connection exists for this device id: nothing happened.
    Ignored,
}

/// What a pair call that hit hands back: the HTTP reply and the auth
/// message carrying the issued token to the device.
#[derive(Debug)]
pub struct PairOutcome {
    pub response: PairResponse,
    pub auth_msg: ServerMessage,
}

/// The connection table read as a map keyed by device id (last entry wins;
/// under `wf` the keys are unique, so order is irrelevant).
pub open spec fn conns_map_of(s: Seq<DeviceConnection>) -> Map<Seq<char>, ConnModel>
    decreases s.len(),
{
    if s.len() == 0 {
        Map::empty()
    } else {
        conns_map_of(s.drop_last()).insert(s.last().device_id@, s.last()@)
    }
}

/// The registry read as a map keyed by device id.
pub open spec fn reg_map_of(s: Seq<Device>) -> Map<Seq<char>, DeviceModel>
    decreases s.len(),
{
    if s.len() == 0 {
        Map::empty()
    } else {
        reg_map_of(s.drop_last()).insert(s.last().id@, s.last()@)
    }
}

/// The pairing ledger read as a map keyed by code.
pub open spec fn pairings_map_of(s: Seq<(u32, PendingPairing)>) -> Map<u32, PairingModel>
    decreases s.len(),
{
    if s.len() == 0 {
        Map::empty()
    } else {
        pairings_map_of(s.drop_last()).insert(s.last().0, s.last().1@)
    }
}

/// The pending-command ledger read as a set of command ids.
pub open spec fn pending_set_of(s: Seq<String>) -> Set<Seq<char>>
    decreases s.len(),
{
    if s.len() == 0 {
        Set::empty()
    } else {
        pending_set_of(s.drop_last()).insert(s.last()@)
    }
}

pub open spec fn conns_unique(s: Seq<DeviceConnection>) -> bool {
    forall|i: int, j: int|
        0 <= i < j < s.len() ==> (#[trigger] s[i]).device_id@ != (#[trigger] s[j]).device_id@
}

pub open spec fn reg_unique(s: Seq<Device>) -> bool {
    forall|i: int, j: int|
        0 <= i < j < s.len() ==> (#[trigger] s[i]).id@ != (#[trigger] s[j]).id@
}

pub open spec fn pairings_unique(s: Seq<(u32, PendingPairing)>) -> bool {
    forall|i: int, j: int| 0 <= i < j < s.len() ==> (#[trigger] s[i]).0 != (#[trigger] s[j]).0
}

pub open spec fn pending_unique(s: Seq<String>) -> bool {
    forall|i: int, j: int| 0 <= i < j < s.len() ==> (#[trigger] s[i])@ != (#[trigger] s[j])@
}

/// How many table entries are authenticated.
pub open spec fn auth_count(s: Seq<DeviceConnection>) -> nat
    decreases s.len(),
{
    if s.len() == 0 {
        0
    } else {
        auth_count(s.drop_last()) + if s.last().authenticated {
            1nat
        } else {
            0nat
        }
    }
}

/// With no authenticated entry counted, no entry is authenticated.
pub proof fn lemma_auth_count_zero(s: Seq<DeviceConnection>)
    ensures
        auth_count(s) == 0 ==> forall|j: int|
            0 <= j < s.len() ==> !(#[trigger] s[j]).authenticated,
    decreases s.len(),
{
    if s.len() > 0 {
        lemma_auth_count_zero(s.drop_last());
        if auth_count(s) == 0 {
            assert forall|j: int| 0 <= j < s.len() implies !(#[trigger] s[j]).authenticated by {
                if j < s.len() - 1 {
                    assert(s.drop_last()[j] == s[j]);
                }
            }
        }
    }
}

/// What loading a persisted registry keeps: records with an empty token
/// are dropped, and of records sharing an id the later one wins.
pub open spec fn loaded_registry(s: Seq<Device>) -> Map<Seq<char>, DeviceModel>
    decreases s.len(),
{
    if s.len() == 0 {
        Map::empty()
    } else {
        let m = loaded_registry(s.drop_last());
        if s.last().token@.len() > 0 {
            m.insert(s.last().id@, s.last()@)
        } else {
            m
        }
    }
}

/// A well-formed registry reloads exactly as it was persisted: nothing is
/// dropped, because every persisted record has a non-empty token and a
/// unique id.
pub proof fn lemma_loaded_registry_roundtrip(s: Seq<Device>)
    requires
        forall|i: int| 0 <= i < s.len() ==> (#[trigger] s[i]).token@.len() > 0,
    ensures
        loaded_registry(s) == reg_map_of(s),
    decreases s.len(),
{
    if s.len() > 0 {
        assert forall|i: int| 0 <= i < s.drop_last().len() implies (#[trigger] s.drop_last()[i])
            .token@.len() > 0 by {
            assert(s.drop_last()[i] == s[i]);
        }
        lemma_loaded_registry_roundtrip(s.drop_last());
    }
}

/// At most one connection-table entry exists per device id: the table is a
/// map keyed by id, and the concrete table never holds two entries with
/// the same id. Every mutation preserves `wf`, so this holds at all times.
pub proof fn lemma_connection_table_unique(st: AppState)
    requires
        st.wf(),
    ensures
        forall|i: int, j: int|
            0 <= i < j < st.connections@.len() ==> (#[trigger] st.connections@[i]).device_id@
                != (#[trigger] st.connections@[j]).device_id@,
{
}

/// Every record the server persists carries a non-empty token and a unique
/// id; this is what the registry file receives, since the snapshot copies
/// the registry record for record.
pub proof fn lemma_persisted_registry_valid(st: AppState)
    requires
        st.wf(),
    ensures
        reg_unique(st.devices@),
        forall|i: int|
            0 <= i < st.devices@.len() ==> (#[trigger] st.devices@[i]).token@.len() > 0,
{
}

/// Checks whether a loaded record's token is empty.
fn device_token_empty(d: &Device) -> (r: bool)
    ensures
        r == (d.token@.len() == 0),
{
    d.token.as_str().is_empty()
}

impl View for AppState {
    type V = StateModel;

    open spec fn view(&self) -> StateModel {
        StateModel {
            registry: reg_map_of(self.devices@),
            connections: conns_map_of(self.connections@),
            pairings: pairings_map_of(self.pending_pairings@),
            pending: pending_set_of(self.pending_commands@),
            api_key: self.api_key@,
            apns_configured: self.apns_configured,
        }
    }
}

impl AppState {
    /// Well-formedness of the concrete state: each ledger is keyed
    /// uniquely, persisted tokens are non-empty, and pairing codes have six
    /// digits.
    pub open spec fn wf(self) -> bool {
        &&& conns_unique(self.connections@)
        &&& reg_unique(self.devices@)
        &&& pairings_unique(self.pending_pairings@)
        &&& pending_unique(self.pending_commands@)
        &&& forall|i: int|
            0 <= i < self.devices@.len() ==> (#[trigger] self.devices@[i]).token@.len() > 0
        &&& forall|i: int|
            0 <= i < self.pending_pairings@.len() ==> 100000 <= (#[trigger] self
                .pending_pairings@[i]).0 <= 999999
    }
}

/// Characterizes the connection-table map: its domain is exactly the ids in
/// the table, and each id looks up the entry that carries it.
pub proof fn lemma_conns_map(s: Seq<DeviceConnection>)
    requires
        conns_unique(s),
    ensures
        forall|k: Seq<char>|
            #[trigger] conns_map_of(s).dom().contains(k) <==> exists|i: int|
                0 <= i < s.len() && (#[trigger] s[i]).device_id@ == k,
        forall|i: int|
            0 <= i < s.len() ==> conns_map_of(s)[(#[trigger] s[i]).device_id@] == s[i]@,
    decreases s.len(),
{
    if s.len() > 0 {
        let front = s.drop_last();
        assert(conns_unique(front));
        lemma_conns_map(front);
        assert forall|k: Seq<char>| #[trigger]
            conns_map_of(s).dom().contains(k) implies exists|i: int|
            0 <= i < s.len() && (#[trigger] s[i]).device_id@ == k by {
            if k == s.last().device_id@ {
                assert(s[s.len() - 1].device_id@ == k);
            } else {
                assert(conns_map_of(front).dom().contains(k));
                let i = choose|i: int| 0 <= i < front.len() && (#[trigger] front[i]).device_id@
                    == k;
                assert(front[i] == s[i]);
                assert(s[i].device_id@ == k);
            }
        }
        assert forall|k: Seq<char>| (exists|i: int|
            0 <= i < s.len() && (#[trigger] s[i]).device_id@ == k) implies #[trigger] conns_map_of(
            s,
        ).dom().contains(k) by {
            let i = choose|i: int| 0 <= i < s.len() && (#[trigger] s[i]).device_id@ == k;
            if i < s.len() - 1 {
                assert(front[i].device_id@ == k);
                assert(conns_map_of(front).dom().contains(k));
            }
        }
        assert forall|i: int| 0 <= i < s.len() implies conns_map_of(s)[(#[trigger] s[i]).device_id@]
            == s[i]@ by {
            if i < s.len() - 1 {
                assert(front[i] == s[i]);
                assert(s[i].device_id@ != s.last().device_id@);
            }
        }
    }
}

/// Removing the entry at index `i` removes exactly its key from the map.
pub proof fn lemma_conns_map_remove(s: Seq<DeviceConnection>, i: int)
    requires
        conns_unique(s),
        0 <= i < s.len(),
    ensures
        conns_unique(s.remove(i)),
        forall|j: int|
            0 <= j < s.remove(i).len() ==> (#[trigger] s.remove(i)[j]).device_id@ != s[i].device_id@,
        conns_map_of(s.remove(i)) =~= conns_map_of(s).remove(s[i].device_id@),
{
    let t = s.remove(i);
    s.remove_ensures(i);
    assert(conns_unique(t));
    assert forall|j: int| 0 <= j < t.len() implies (#[trigger] t[j]).device_id@
        != s[i].device_id@ by {
        if j < i {
            assert(t[j] == s[j]);
        } else {
            assert(t[j] == s[j + 1]);
        }
    }
    lemma_conns_map(s);
    lemma_conns_map(t);
    let key = s[i].device_id@;
    assert forall|k: Seq<char>| #[trigger]
        conns_map_of(t).dom().contains(k) implies conns_map_of(s).remove(key).dom().contains(
        k,
    ) by {
        let j = choose|j: int| 0 <= j < t.len() && (#[trigger] t[j]).device_id@ == k;
        if j < i {
            assert(s[j].device_id@ == k);
        } else {
            assert(s[j + 1].device_id@ == k);
        }
    }
    assert forall|k: Seq<char>| #[trigger]
        conns_map_of(s).remove(key).dom().contains(k) implies conns_map_of(t).dom().contains(
        k,
    ) by {
        let j = choose|j: int| 0 <= j < s.len() && (#[trigger] s[j]).device_id@ == k;
        if j < i {
            assert(t[j].device_id@ == k);
        } else {
            assert(j != i);
            assert(t[j - 1] == s[j]);
            assert(t[j - 1].device_id@ == k);
        }
    }
    assert forall|k: Seq<char>| conns_map_of(t).dom().contains(k) implies #[trigger] conns_map_of(
        t,
    )[k] == conns_map_of(s).remove(key)[k] by {
        let j = choose|j: int| 0 <= j < t.len() && (#[trigger] t[j]).device_id@ == k;
        assert(conns_map_of(t)[k] == t[j]@);
        if j < i {
            assert(s[j].device_id@ == k);
            assert(conns_map_of(s)[k] == s[j]@);
        } else {
            assert(s[j + 1].device_id@ == k);
            assert(conns_map_of(s)[k] == s[j + 1]@);
        }
    }
}

impl AppState {
    /// Index of the connection entry for `id`, if any.
    fn find_conn(&self, id: &String) -> (r: Option<usize>)
        ensures
            match r {
                Some(i) => i < self.connections@.len() && self.connections@[i as int].device_id@
                    == id@,
                None => forall|i: int|
                    0 <= i < self.connections@.len() ==> (#[trigger] self
                        .connections@[i]).device_id@ != id@,
            },
    {
        let n = self.connections.len();
        let mut i: usize = 0;
        while i < n
            invariant
                n == self.connections@.len(),
                0 <= i <= n,
                forall|j: int|
                    0 <= j < i ==> (#[trigger] self.connections@[j]).device_id@ != id@,
            decreases n - i,
        {
            if self.connections[i].device_id == *id {
                return Some(i);
            }
            i = i + 1;
        }
        None
    }

    /// Inserts or replaces the connection entry for `c.device_id`.
    fn put_conn(&mut self, c: DeviceConnection)
        requires
            old(self).wf(),
        ensures
            final(self).wf(),
            final(self)@ == (StateModel {
                connections: old(self)@.connections.insert(c.device_id@, c@),
                ..old(self)@
            }),
            final(self).devices@ == old(self).devices@,
            final(self).pending_pairings@ == old(self).pending_pairings@,
            final(self).pending_commands@ == old(self).pending_commands@,
            final(self).api_key == old(self).api_key,
            final(self).apns_configured == old(self).apns_configured,
    {
        let ghost s0 = self.connections@;
        match self.find_conn(&c.device_id) {
            Some(i) => {
                proof {
                    lemma_conns_map_remove(s0, i as int);
                }
                self.connections.remove(i);
            },
            None => {
                proof {
                    lemma_conns_map(s0);
                    assert(conns_map_of(s0).remove(c.device_id@) =~= conns_map_of(s0));
                }
            },
        }
        let ghost s1 = self.connections@;
        proof {
            assert(conns_map_of(s1) =~= conns_map_of(s0).remove(c.device_id@));
            assert(forall|j: int|
                0 <= j < s1.len() ==> (#[trigger] s1[j]).device_id@ != c.device_id@);
        }
        self.connections.push(c);
        proof {
            let s2 = self.connections@;
            assert(s2.drop_last() =~= s1);
            assert(s2.last() == c);
            assert(conns_unique(s2));
            assert(conns_map_of(s2) =~= conns_map_of(s0).insert(c.device_id@, c@));
        }
    }

    /// Removes the connection entry for `id`, if present.
    fn drop_conn(&mut self, id: &String)
        requires
            old(self).wf(),
        ensures
            final(self).wf(),
            final(self)@ == (StateModel {
                connections: old(self)@.connections.remove(id@),
                ..old(self)@
            }),
            final(self).devices@ == old(self).devices@,
            final(self).pending_pairings@ == old(self).pending_pairings@,
            final(self).pending_commands@ == old(self).pending_commands@,
            final(self).api_key == old(self).api_key,
            final(self).apns_configured == old(self).apns_configured,
    {
        let ghost s0 = self.connections@;
        match self.find_conn(id) {
            Some(i) => {
                proof {
                    lemma_conns_map_remove(s0, i as int);
                }
                self.connections.remove(i);
            },
            None => {
                proof {
                    lemma_conns_map(s0);
                    assert(conns_map_of(s0).remove(id@) =~= conns_map_of(s0));
                }
            },
        }
    }
}

/// Characterizes the registry map, exactly as `lemma_conns_map` does for
/// the connection table.
pub proof fn lemma_reg_map(s: Seq<Device>)
    requires
        reg_unique(s),
    ensures
        forall|k: Seq<char>|
            #[trigger] reg_map_of(s).dom().contains(k) <==> exists|i: int|
                0 <= i < s.len() && (#[trigger] s[i]).id@ == k,
        forall|i: int| 0 <= i < s.len() ==> reg_map_of(s)[(#[trigger] s[i]).id@] == s[i]@,
    decreases s.len(),
{
    if s.len() > 0 {
        let front = s.drop_last();
        assert(reg_unique(front));
        lemma_reg_map(front);
        assert forall|k: Seq<char>| #[trigger]
            reg_map_of(s).dom().contains(k) implies exists|i: int|
            0 <= i < s.len() && (#[trigger] s[i]).id@ == k by {
            if k == s.last().id@ {
                assert(s[s.len() - 1].id@ == k);
            } else {
                assert(reg_map_of(front).dom().contains(k));
                let i = choose|i: int| 0 <= i < front.len() && (#[trigger] front[i]).id@ == k;
                assert(front[i] == s[i]);
                assert(s[i].id@ == k);
            }
        }
        assert forall|k: Seq<char>| (exists|i: int|
            0 <= i < s.len() && (#[trigger] s[i]).id@ == k) implies #[trigger] reg_map_of(
            s,
        ).dom().contains(k) by {
            let i = choose|i: int| 0 <= i < s.len() && (#[trigger] s[i]).id@ == k;
            if i < s.len() - 1 {
                assert(front[i].id@ == k);
                assert(reg_map_of(front).dom().contains(k));
            }
        }
        assert forall|i: int| 0 <= i < s.len() implies reg_map_of(s)[(#[trigger] s[i]).id@]
            == s[i]@ by {
            if i < s.len() - 1 {
                assert(front[i] == s[i]);
                assert(s[i].id@ != s.last().id@);
            }
        }
    }
}

/// Removing the registry entry at index `i` removes exactly its key.
pub proof fn lemma_reg_map_remove(s: Seq<Device>, i: int)
    requires
        reg_unique(s),
        0 <= i < s.len(),
    ensures
        reg_unique(s.remove(i)),
        forall|j: int| 0 <= j < s.remove(i).len() ==> (#[trigger] s.remove(i)[j]).id@ != s[i].id@,
        reg_map_of(s.remove(i)) =~= reg_map_of(s).remove(s[i].id@),
{
    let t = s.remove(i);
    s.remove_ensures(i);
    assert(reg_unique(t));
    assert forall|j: int| 0 <= j < t.len() implies (#[trigger] t[j]).id@ != s[i].id@ by {
        if j < i {
            assert(t[j] == s[j]);
        } else {
            assert(t[j] == s[j + 1]);
        }
    }
    lemma_reg_map(s);
    lemma_reg_map(t);
    let key = s[i].id@;
    assert forall|k: Seq<char>| #[trigger]
        reg_map_of(t).dom().contains(k) implies reg_map_of(s).remove(key).dom().contains(k) by {
        let j = choose|j: int| 0 <= j < t.len() && (#[trigger] t[j]).id@ == k;
        if j < i {
            assert(s[j].id@ == k);
        } else {
            assert(s[j + 1].id@ == k);
        }
    }
    assert forall|k: Seq<char>| #[trigger]
        reg_map_of(s).remove(key).dom().contains(k) implies reg_map_of(t).dom().contains(k) by {
        let j = choose|j: int| 0 <= j < s.len() && (#[trigger] s[j]).id@ == k;
        if j < i {
            assert(t[j].id@ == k);
        } else {
            assert(j != i);
            assert(t[j - 1] == s[j]);
            assert(t[j - 1].id@ == k);
        }
    }
    assert forall|k: Seq<char>| reg_map_of(t).dom().contains(k) implies #[trigger] reg_map_of(
        t,
    )[k] == reg_map_of(s).remove(key)[k] by {
        let j = choose|j: int| 0 <= j < t.len() && (#[trigger] t[j]).id@ == k;
        assert(reg_map_of(t)[k] == t[j]@);
        if j < i {
            assert(s[j].id@ == k);
            assert(reg_map_of(s)[k] == s[j]@);
        } else {
            assert(s[j + 1].id@ == k);
            assert(reg_map_of(s)[k] == s[j + 1]@);
        }
    }
}

/// Characterizes the pairing-ledger map.
pub proof fn lemma_pairings_map(s: Seq<(u32, PendingPairing)>)
    requires
        pairings_unique(s),
    ensures
        forall|k: u32|
            #[trigger] pairings_map_of(s).dom().contains(k) <==> exists|i: int|
                0 <= i < s.len() && (#[trigger] s[i]).0 == k,
        forall|i: int| 0 <= i < s.len() ==> pairings_map_of(s)[(#[trigger] s[i]).0] == s[i].1@,
    decreases s.len(),
{
    if s.len() > 0 {
        let front = s.drop_last();
        assert(pairings_unique(front));
        lemma_pairings_map(front);
        assert forall|k: u32| #[trigger]
            pairings_map_of(s).dom().contains(k) implies exists|i: int|
            0 <= i < s.len() && (#[trigger] s[i]).0 == k by {
            if k == s.last().0 {
                assert(s[s.len() - 1].0 == k);
            } else {
                assert(pairings_map_of(front).dom().contains(k));
                let i = choose|i: int| 0 <= i < front.len() && (#[trigger] front[i]).0 == k;
                assert(front[i] == s[i]);
                assert(s[i].0 == k);
            }
        }
        assert forall|k: u32| (exists|i: int|
            0 <= i < s.len() && (#[trigger] s[i]).0 == k) implies #[trigger] pairings_map_of(
            s,
        ).dom().contains(k) by {
            let i = choose|i: int| 0 <= i < s.len() && (#[trigger] s[i]).0 == k;
            if i < s.len() - 1 {
                assert(front[i].0 == k);
                assert(pairings_map_of(front).dom().contains(k));
            }
        }
        assert forall|i: int| 0 <= i < s.len() implies pairings_map_of(s)[(#[trigger] s[i]).0]
            == s[i].1@ by {
            if i < s.len() - 1 {
                assert(front[i] == s[i]);
                assert(s[i].0 != s.last().0);
            }
        }
    }
}

/// Removing the pairing entry at index `i` removes exactly its code.
pub proof fn lemma_pairings_map_remove(s: Seq<(u32, PendingPairing)>, i: int)
    requires
        pairings_unique(s),
        0 <= i < s.len(),
    ensures
        pairings_unique(s.remove(i)),
        forall|j: int| 0 <= j < s.remove(i).len() ==> (#[trigger] s.remove(i)[j]).0 != s[i].0,
        pairings_map_of(s.remove(i)) =~= pairings_map_of(s).remove(s[i].0),
{
    let t = s.remove(i);
    s.remove_ensures(i);
    assert(pairings_unique(t));
    assert forall|j: int| 0 <= j < t.len() implies (#[trigger] t[j]).0 != s[i].0 by {
        if j < i {
            assert(t[j] == s[j]);
        } else {
            assert(t[j] == s[j + 1]);
        }
    }
    lemma_pairings_map(s);
    lemma_pairings_map(t);
    let key = s[i].0;
    assert forall|k: u32| #[trigger]
        pairings_map_of(t).dom().contains(k) implies pairings_map_of(s).remove(
        key,
    ).dom().contains(k) by {
        let j = choose|j: int| 0 <= j < t.len() && (#[trigger] t[j]).0 == k;
        if j < i {
            assert(s[j].0 == k);
        } else {
            assert(s[j + 1].0 == k);
        }
    }
    assert forall|k: u32| #[trigger]
        pairings_map_of(s).remove(key).dom().contains(k) implies pairings_map_of(
        t,
    ).dom().contains(k) by {
        let j = choose|j: int| 0 <= j < s.len() && (#[trigger] s[j]).0 == k;
        if j < i {
            assert(t[j].0 == k);
        } else {
            assert(j != i);
            assert(t[j - 1] == s[j]);
            assert(t[j - 1].0 == k);
        }
    }
    assert forall|k: u32| pairings_map_of(t).dom().contains(k) implies #[trigger] pairings_map_of(
        t,
    )[k] == pairings_map_of(s).remove(key)[k] by {
        let j = choose|j: int| 0 <= j < t.len() && (#[trigger] t[j]).0 == k;
        assert(pairings_map_of(t)[k] == t[j].1@);
        if j < i {
            assert(s[j].0 == k);
            assert(pairings_map_of(s)[k] == s[j].1@);
        } else {
            assert(s[j + 1].0 == k);
            assert(pairings_map_of(s)[k] == s[j + 1].1@);
        }
    }
}

/// Characterizes the pending-command set.
pub proof fn lemma_pending_set(s: Seq<String>)
    requires
        pending_unique(s),
    ensures
        forall|k: Seq<char>|
            #[trigger] pending_set_of(s).contains(k) <==> exists|i: int|
                0 <= i < s.len() && (#[trigger] s[i])@ == k,
    decreases s.len(),
{
    if s.len() > 0 {
        let front = s.drop_last();
        assert(pending_unique(front));
        lemma_pending_set(front);
        assert forall|k: Seq<char>| #[trigger]
            pending_set_of(s).contains(k) implies exists|i: int|
            0 <= i < s.len() && (#[trigger] s[i])@ == k by {
            if k == s.last()@ {
                assert(s[s.len() - 1]@ == k);
            } else {
                assert(pending_set_of(front).contains(k));
                let i = choose|i: int| 0 <= i < front.len() && (#[trigger] front[i])@ == k;
                assert(front[i] == s[i]);
                assert(s[i]@ == k);
            }
        }
        assert forall|k: Seq<char>| (exists|i: int|
            0 <= i < s.len() && (#[trigger] s[i])@ == k) implies #[trigger] pending_set_of(
            s,
        ).contains(k) by {
            let i = choose|i: int| 0 <= i < s.len() && (#[trigger] s[i])@ == k;
            if i < s.len() - 1 {
                assert(front[i]@ == k);
                assert(pending_set_of(front).contains(k));
            }
        }
    }
}

/// Removing the pending entry at index `i` removes exactly its id.
pub proof fn lemma_pending_set_remove(s: Seq<String>, i: int)
    requires
        pending_unique(s),
        0 <= i < s.len(),
    ensures
        pending_unique(s.remove(i)),
        forall|j: int| 0 <= j < s.remove(i).len() ==> (#[trigger] s.remove(i)[j])@ != s[i]@,
        pending_set_of(s.remove(i)) =~= pending_set_of(s).remove(s[i]@),
{
    let t = s.remove(i);
    s.remove_ensures(i);
    assert(pending_unique(t));
    assert forall|j: int| 0 <= j < t.len() implies (#[trigger] t[j])@ != s[i]@ by {
        if j < i {
            assert(t[j] == s[j]);
        } else {
            assert(t[j] == s[j + 1]);
        }
    }
    lemma_pending_set(s);
    lemma_pending_set(t);
    let key = s[i]@;
    assert forall|k: Seq<char>| #[trigger]
        pending_set_of(t).contains(k) implies pending_set_of(s).remove(key).contains(k) by {
        let j = choose|j: int| 0 <= j < t.len() && (#[trigger] t[j])@ == k;
        if j < i {
            assert(s[j]@ == k);
        } else {
            assert(s[j + 1]@ == k);
        }
    }
    assert forall|k: Seq<char>| #[trigger]
        pending_set_of(s).remove(key).contains(k) implies pending_set_of(t).contains(k) by {
        let j = choose|j: int| 0 <= j < s.len() && (#[trigger] s[j])@ == k;
        if j < i {
            assert(t[j]@ == k);
        } else {
            assert(j != i);
            assert(t[j - 1] == s[j]);
            assert(t[j - 1]@ == k);
        }
    }
}

impl AppState {
    /// Index of the registry record for `id`, if any.
    pub(crate) fn find_device(&self, id: &String) -> (r: Option<usize>)
        ensures
            match r {
                Some(i) => i < self.devices@.len() && self.devices@[i as int].id@ == id@,
                None => forall|i: int|
                    0 <= i < self.devices@.len() ==> (#[trigger] self.devices@[i]).id@ != id@,
            },
    {
        let n = self.devices.len();
        let mut i: usize = 0;
        while i < n
            invariant
                n == self.devices@.len(),
                0 <= i <= n,
                forall|j: int| 0 <= j < i ==> (#[trigger] self.devices@[j]).id@ != id@,
            decreases n - i,
        {
            if self.devices[i].id == *id {
                return Some(i);
            }
            i = i + 1;
        }
        None
    }

    /// Inserts or replaces the registry record for `d.id`.
    fn put_device(&mut self, d: Device)
        requires
            old(self).wf(),
            d.token@.len() > 0,
        ensures
            final(self).wf(),
            final(self)@ == (StateModel {
                registry: old(self)@.registry.insert(d.id@, d@),
                ..old(self)@
            }),
            final(self).connections@ == old(self).connections@,
            final(self).pending_pairings@ == old(self).pending_pairings@,
            final(self).pending_commands@ == old(self).pending_commands@,
    {
        let ghost s0 = self.devices@;
        match self.find_device(&d.id) {
            Some(i) => {
                proof {
                    lemma_reg_map_remove(s0, i as int);
                }
                self.devices.remove(i);
            },
            None => {
                proof {
                    lemma_reg_map(s0);
                    assert(reg_map_of(s0).remove(d.id@) =~= reg_map_of(s0));
                }
            },
        }
        let ghost s1 = self.devices@;
        proof {
            assert(reg_map_of(s1) =~= reg_map_of(s0).remove(d.id@));
            assert(forall|j: int| 0 <= j < s1.len() ==> (#[trigger] s1[j]).id@ != d.id@);
        }
        self.devices.push(d);
        proof {
            let s2 = self.devices@;
            assert(s2.drop_last() =~= s1);
            assert(s2.last() == d);
            assert(reg_unique(s2));
            assert(reg_map_of(s2) =~= reg_map_of(s0).insert(d.id@, d@));
        }
    }

    /// Removes the registry record for `id`, if present.
    fn drop_device(&mut self, id: &String)
        requires
            old(self).wf(),
        ensures
            final(self).wf(),
            final(self)@ == (StateModel {
                registry: old(self)@.registry.remove(id@),
                ..old(self)@
            }),
            final(self).connections@ == old(self).connections@,
            final(self).pending_pairings@ == old(self).pending_pairings@,
            final(self).pending_commands@ == old(self).pending_commands@,
    {
        let ghost s0 = self.devices@;
        match self.find_device(id) {
            Some(i) => {
                proof {
                    lemma_reg_map_remove(s0, i as int);
                }
                self.devices.remove(i);
            },
            None => {
                proof {
                    lemma_reg_map(s0);
                    assert(reg_map_of(s0).remove(id@) =~= reg_map_of(s0));
                }
            },
        }
    }

    /// Index of the pairing entry for `code`, if any.
    fn find_pairing(&self, code: u32) -> (r: Option<usize>)
        ensures
            match r {
                Some(i) => i < self.pending_pairings@.len() && self.pending_pairings@[i as int].0
                    == code,
                None => forall|i: int|
                    0 <= i < self.pending_pairings@.len() ==> (#[trigger] self
                        .pending_pairings@[i]).0 != code,
            },
    {
        let n = self.pending_pairings.len();
        let mut i: usize = 0;
        while i < n
            invariant
                n == self.pending_pairings@.len(),
                0 <= i <= n,
                forall|j: int| 0 <= j < i ==> (#[trigger] self.pending_pairings@[j]).0 != code,
            decreases n - i,
        {
            if self.pending_pairings[i].0 == code {
                return Some(i);
            }
            i = i + 1;
        }
        None
    }

    /// Records a pairing offer under a code not currently outstanding.
    fn put_pairing(&mut self, code: u32, p: PendingPairing)
        requires
            old(self).wf(),
            100000 <= code <= 999999,
            !old(self)@.pairings.dom().contains(code),
        ensures
            final(self).wf(),
            final(self)@ == (StateModel {
                pairings: old(self)@.pairings.insert(code, p@),
                ..old(self)@
            }),
            final(self).connections@ == old(self).connections@,
            final(self).devices@ == old(self).devices@,
    {
        let ghost s0 = self.pending_pairings@;
        proof {
            lemma_pairings_map(s0);
            assert forall|j: int| 0 <= j < s0.len() implies (#[trigger] s0[j]).0 != code by {
                if s0[j].0 == code {
                    assert(pairings_map_of(s0).dom().contains(code));
                }
            }
        }
        self.pending_pairings.push((code, p));
        proof {
            let s2 = self.pending_pairings@;
            assert(s2.drop_last() =~= s0);
            assert(s2.last() == (code, p));
            assert(pairings_unique(s2));
        }
    }

    /// Consumes the pairing offer for `code`: removes and returns it.
    fn take_pairing(&mut self, code: u32) -> (r: Option<PendingPairing>)
        requires
            old(self).wf(),
        ensures
            final(self).wf(),
            match r {
                Some(p) => old(self)@.pairings.dom().contains(code) && p@ == old(self)@.pairings[code] && final(self)@ == (StateModel {
                    pairings: old(self)@.pairings.remove(code),
                    ..old(self)@
                }),
                None => !old(self)@.pairings.dom().contains(code) && *final(self) == *old(self),
            },
            final(self).connections@ == old(self).connections@,
            final(self).devices@ == old(self).devices@,
    {
        let ghost s0 = self.pending_pairings@;
        proof {
            lemma_pairings_map(s0);
        }
        match self.find_pairing(code) {
            Some(i) => {
                proof {
                    lemma_pairings_map_remove(s0, i as int);
                }
                let entry = self.pending_pairings.remove(i);
                Some(entry.1)
            },
            None => None,
        }
    }

    /// A six-digit pairing code not currently outstanding: random draws
    /// first, and a deterministic upward scan if the draws keep colliding,
    /// so the search always ends.
    fn fresh_pairing_code(&self) -> (code: u32)
        requires
            self.wf(),
            self.pending_pairings@.len() < 900000,
        ensures
            100000 <= code <= 999999,
            !self@.pairings.dom().contains(code),
    {
        proof {
            lemma_pairings_map(self.pending_pairings@);
        }
        let mut attempts: u64 = 0;
        while attempts < 64
            invariant
                self.wf(),
            decreases 64 - attempts,
        {
            let c = draw_pairing_code();
            if self.find_pairing(c).is_none() {
                proof {
                    lemma_pairings_map(self.pending_pairings@);
                }
                return c;
            }
            attempts = attempts + 1;
        }
        let mut c: u32 = 100000;
        let ghost mut used: Set<int> = Set::empty();
        loop
            invariant
                self.wf(),
                self.pending_pairings@.len() < 900000,
                100000 <= c,
                used.finite(),
                used.len() == c - 100000,
                forall|i: int|
                    #[trigger] used.contains(i) ==> 0 <= i < self.pending_pairings@.len() && (
                    self.pending_pairings@[i]).0 < c,
            ensures
                100000 <= c <= 999999,
                !self@.pairings.dom().contains(c),
            decreases 1000000 - c,
        {
            proof {
                assert forall|i: int| #[trigger] used.contains(i) implies vstd::set_lib::set_int_range(
                    0,
                    self.pending_pairings@.len() as int,
                ).contains(i) by {}
                assert(used.subset_of(
                    vstd::set_lib::set_int_range(0, self.pending_pairings@.len() as int),
                ));
                vstd::set_lib::lemma_int_range(0, self.pending_pairings@.len() as int);
                vstd::set_lib::lemma_len_subset(
                    used,
                    vstd::set_lib::set_int_range(0, self.pending_pairings@.len() as int),
                );
                lemma_pairings_map(self.pending_pairings@);
            }
            match self.find_pairing(c) {
                None => {
                    break;
                },
                Some(i) => {
                    proof {
                        assert(!used.contains(i as int));
                        used = used.insert(i as int);
                    }
                    c = c + 1;
                },
            }
        }
        c
    }

    /// A device introduced itself. Its (unauthenticated) connection enters
    /// the table, replacing any prior entry for the same id; an unknown
    /// device is offered a fresh pairing code, a known one is asked to
    /// authenticate.
    pub fn on_hello(&mut self, device_id: String, name: String, queue: u64) -> (r: ServerMessage)
        requires
            old(self).wf(),
            old(self).pending_pairings@.len() < 900000,
        ensures
            final(self).wf(),
            old(self)@.registry.dom().contains(device_id@) ==> (r is AuthRequired) && final(self)@ == hello_known_step(old(self)@, device_id@, name@, queue),
            !old(self)@.registry.dom().contains(device_id@) ==> (r matches
                ServerMessage::PairingCode { code } && (spec_parse_code(code@) matches Some(c)
                && 100000 <= c <= 999999 && !old(self)@.pairings.dom().contains(c) && final(self)@ == hello_unknown_step(old(self)@, device_id@, name@, queue, c))),
    {
        proof {
            lemma_reg_map(self.devices@);
        }
        let known = self.find_device(&device_id).is_some();
        self.put_conn(
            DeviceConnection {
                device_id: device_id.clone(),
                name: name.clone(),
                authenticated: false,
                queue: queue,
            },
        );
        if known {
            ServerMessage::AuthRequired
        } else {
            let code = self.fresh_pairing_code();
            self.put_pairing(code, PendingPairing { device_id: device_id, name: name });
            ServerMessage::PairingCode { code: format_code(code) }
        }
    }

    /// A connected device presented its token. On a match the connection
    /// becomes authenticated; on a mismatch the stale registry record is
    /// evicted (the caller must persist the registry) and a fresh pairing
    /// code is offered on the same socket.
    pub fn on_auth(&mut self, device_id: String, token: String) -> (r: AuthOutcome)
        requires
            old(self).wf(),
            old(self).pending_pairings@.len() < 900000,
        ensures
            final(self).wf(),
            !old(self)@.connections.dom().contains(device_id@) ==> (r is Ignored) && *final(self)
                == *old(self),
            old(self)@.connections.dom().contains(device_id@) && old(self)@.auth_ok(
                device_id@,
                token@,
            ) ==> (r matches AuthOutcome::Accepted { msg } && (msg matches
                ServerMessage::AuthResult { success, token: t, error } && success == true && (
            t is None) && (error is None))) && final(self)@ == auth_accept_step(
                old(self)@,
                device_id@,
            ),
            old(self)@.connections.dom().contains(device_id@) && !old(self)@.auth_ok(
                device_id@,
                token@,
            ) ==> (r matches AuthOutcome::Rejected { msg } && (msg matches
                ServerMessage::PairingCode { code } && (spec_parse_code(code@) matches Some(c)
                && !old(self)@.pairings.dom().contains(c) && final(self)@ == auth_reject_step(
                old(self)@,
                device_id@,
                c,
            )))),
    {
        proof {
            lemma_conns_map(self.connections@);
            lemma_reg_map(self.devices@);
        }
        let ci = match self.find_conn(&device_id) {
            None => {
                return AuthOutcome::Ignored;
            },
            Some(i) => i,
        };
        let valid = match self.find_device(&device_id) {
            Some(di) => self.devices[di].token == token,
            None => false,
        };
        if valid {
            let c_id = self.connections[ci].device_id.clone();
            let c_name = self.connections[ci].name.clone();
            let c_queue = self.connections[ci].queue;
            self.put_conn(
                DeviceConnection {
                    device_id: c_id,
                    name: c_name,
                    authenticated: true,
                    queue: c_queue,
                },
            );
            AuthOutcome::Accepted {
                msg: ServerMessage::AuthResult { success: true, token: None, error: None },
            }
        } else {
            let c_name = self.connections[ci].name.clone();
            self.drop_device(&device_id);
            let code = self.fresh_pairing_code();
            self.put_pairing(code, PendingPairing { device_id: device_id, name: c_name });
            AuthOutcome::Rejected { msg: ServerMessage::PairingCode { code: format_code(code) } }
        }
    }

    /// A device answered a command. A pending command with that id is
    /// settled and the answer forwarded; an unknown id (for instance after
    /// a timeout already settled it) is dropped silently.
    pub fn on_response(
        &mut self,
        id: String,
        status: String,
        data: Option<String>,
        error: Option<ErrorInfo>,
    ) -> (r: Option<CommandResponse>)
        requires
            old(self).wf(),
        ensures
            final(self).wf(),
            final(self)@ == settle_step(old(self)@, id@),
            (r is Some) <==> old(self)@.pending.contains(id@),
            r matches Some(resp) ==> resp.id@ == id@ && resp.status@ == status@ && resp@.data == (
            match data {
                Some(d) => Some(d@),
                None => None::<Seq<char>>,
            }) && (match error {
                Some(e) => resp@.error == Some(e.message@) && resp@.error_code == Some(e.code@),
                None => (resp@.error is None) && (resp@.error_code is None),
            }),
    {
        let was = self.settle_command(&id);
        if was {
            let (err_msg, err_code) = match error {
                Some(e) => (Some(e.message), Some(e.code)),
                None => (None, None),
            };
            Some(
                CommandResponse {
                    id: id,
                    status: status,
                    data: data,
                    error: err_msg,
                    error_code: err_code,
                },
            )
        } else {
            None
        }
    }

    /// A connected device reported the push token APNs knows it by.
    /// Returns whether the registry changed and must be persisted.
    pub fn on_push_token(&mut self, device_id: &String, token: String) -> (persist: bool)
        requires
            old(self).wf(),
        ensures
            final(self).wf(),
            persist == old(self)@.registry.dom().contains(device_id@),
            persist ==> final(self)@ == push_token_step(old(self)@, device_id@, token@),
            !persist ==> *final(self) == *old(self),
    {
        proof {
            lemma_reg_map(self.devices@);
        }
        match self.find_device(device_id) {
            Some(i) => {
                let nd = Device {
                    id: self.devices[i].id.clone(),
                    name: self.devices[i].name.clone(),
                    token: self.devices[i].token.clone(),
                    paired_at: self.devices[i].paired_at,
                    push_token: Some(token),
                    voip_token: match self.devices[i].voip_token {
                        Some(ref t) => Some(t.clone()),
                        None => None,
                    },
                };
                self.put_device(nd);
                true
            },
            None => false,
        }
    }

    /// A connected device reported its VoIP push token.
    pub fn on_voip_token(&mut self, device_id: &String, token: String) -> (persist: bool)
        requires
            old(self).wf(),
        ensures
            final(self).wf(),
            persist == old(self)@.registry.dom().contains(device_id@),
            persist ==> final(self)@ == voip_token_step(old(self)@, device_id@, token@),
            !persist ==> *final(self) == *old(self),
    {
        proof {
            lemma_reg_map(self.devices@);
        }
        match self.find_device(device_id) {
            Some(i) => {
                let nd = Device {
                    id: self.devices[i].id.clone(),
                    name: self.devices[i].name.clone(),
                    token: self.devices[i].token.clone(),
                    paired_at: self.devices[i].paired_at,
                    push_token: match self.devices[i].push_token {
                        Some(ref t) => Some(t.clone()),
                        None => None,
                    },
                    voip_token: Some(token),
                };
                self.put_device(nd);
                true
            },
            None => false,
        }
    }

    /// A pair call: consumes the offer for `code_str` atomically. On a hit
    /// the device is persisted under a fresh token (the caller must persist
    /// the registry), its live connection becomes authenticated, and the
    /// issued token travels back to the device in the auth message. On a
    /// miss — also when a second caller raced for the same code — nothing
    /// changes.
    pub fn pair(&mut self, code_str: &String, now: u64) -> (r: Option<PairOutcome>)
        requires
            old(self).wf(),
        ensures
            final(self).wf(),
            match spec_parse_code(code_str@) {
                Some(c) => {
                    &&& old(self)@.pairings.dom().contains(c) ==> (r matches Some(out) && (
                    out.response.device_id@ == old(self)@.pairings[c].device_id
                        && out.response.name@ == old(self)@.pairings[c].name && (out.auth_msg
                        matches ServerMessage::AuthResult { success, token, error } && success
                        == true && (error is None) && (token matches Some(t) && t@.len() == 36
                        && final(self)@ == pair_step(old(self)@, c, t@, now)))))
                    &&& !old(self)@.pairings.dom().contains(c) ==> (r is None) && *final(self)
                        == *old(self)
                },
                None => (r is None) && *final(self) == *old(self),
            },
    {
        let code = match crate::strutil::parse_code(code_str.as_str()) {
            Some(c) => c,
            None => {
                return None;
            },
        };
        let p = match self.take_pairing(code) {
            Some(p) => p,
            None => {
                return None;
            },
        };
        let token = new_uuid_string();
        let d = Device {
            id: p.device_id.clone(),
            name: p.name.clone(),
            token: token.clone(),
            paired_at: now,
            push_token: None,
            voip_token: None,
        };
        self.put_device(d);
        proof {
            lemma_conns_map(self.connections@);
        }
        match self.find_conn(&p.device_id) {
            Some(i) => {
                let cd = self.connections[i].device_id.clone();
                let cn = self.connections[i].name.clone();
                let cq = self.connections[i].queue;
                self.put_conn(
                    DeviceConnection {
                        device_id: cd,
                        name: cn,
                        authenticated: true,
                        queue: cq,
                    },
                );
            },
            None => {},
        }
        Some(
            PairOutcome {
                response: PairResponse { device_id: p.device_id, name: p.name },
                auth_msg: ServerMessage::AuthResult {
                    success: true,
                    token: Some(token),
                    error: None,
                },
            },
        )
    }

    /// Removes a device from registry and connection table. The caller must
    /// persist the registry when `found` comes back true.
    pub fn delete_device(&mut self, id: &String) -> (found: bool)
        requires
            old(self).wf(),
        ensures
            final(self).wf(),
            found == old(self)@.registry.dom().contains(id@),
            final(self)@ == delete_step(old(self)@, id@),
    {
        proof {
            lemma_reg_map(self.devices@);
        }
        let found = self.find_device(id).is_some();
        self.drop_device(id);
        self.drop_conn(id);
        found
    }

    /// A device socket ended: its table entry leaves, unless a replacement
    /// connection (a different queue) owns the entry by now.
    pub fn on_disconnect(&mut self, device_id: &String, queue: u64) -> (removed: bool)
        requires
            old(self).wf(),
        ensures
            final(self).wf(),
            removed == (old(self)@.connections.dom().contains(device_id@) && old(self)@.connections[device_id@].queue == queue),
            final(self)@ == disconnect_step(old(self)@, device_id@, queue),
    {
        proof {
            lemma_conns_map(self.connections@);
        }
        match self.find_conn(device_id) {
            Some(i) => {
                let same = self.connections[i].queue == queue;
                if same {
                    self.drop_conn(device_id);
                    true
                } else {
                    false
                }
            },
            None => false,
        }
    }

    /// Allocates a fresh command id and registers its reply slot in the
    /// pending ledger.
    pub fn open_command(&mut self) -> (cmd_id: String)
        requires
            old(self).wf(),
        ensures
            final(self).wf(),
            cmd_id@.len() == 36,
            final(self)@ == open_command_step(old(self)@, cmd_id@),
    {
        let cmd_id = new_uuid_string();
        proof {
            lemma_pending_set(self.pending_commands@);
        }
        match self.find_pending(&cmd_id) {
            Some(_) => {
                proof {
                    assert(pending_set_of(self.pending_commands@).insert(cmd_id@)
                        =~= pending_set_of(self.pending_commands@));
                }
            },
            None => {
                let ghost s0 = self.pending_commands@;
                self.pending_commands.push(cmd_id.clone());
                proof {
                    let s2 = self.pending_commands@;
                    assert(s2.drop_last() =~= s0);
                    assert(pending_unique(s2));
                }
            },
        }
        cmd_id
    }

    /// Settles (removes) a pending command: by its response, its timeout,
    /// or its slot closing. Returns whether the id was still pending.
    pub fn settle_command(&mut self, cmd_id: &String) -> (was: bool)
        requires
            old(self).wf(),
        ensures
            final(self).wf(),
            was == old(self)@.pending.contains(cmd_id@),
            final(self)@ == settle_step(old(self)@, cmd_id@),
    {
        proof {
            lemma_pending_set(self.pending_commands@);
        }
        match self.find_pending(cmd_id) {
            Some(i) => {
                proof {
                    lemma_pending_set_remove(self.pending_commands@, i as int);
                }
                self.pending_commands.remove(i);
                true
            },
            None => {
                proof {
                    assert(pending_set_of(self.pending_commands@).remove(cmd_id@)
                        =~= pending_set_of(self.pending_commands@));
                }
                false
            },
        }
    }

    /// Everything the router needs to know about a live connection: its
    /// queue handle and whether it is authenticated.
    pub fn connection_info(&self, id: &String) -> (r: Option<(u64, bool)>)
        requires
            self.wf(),
        ensures
            match r {
                Some(info) => self@.connections.dom().contains(id@) && info.0
                    == self@.connections[id@].queue && info.1
                    == self@.connections[id@].authenticated,
                None => !self@.connections.dom().contains(id@),
            },
    {
        proof {
            lemma_conns_map(self.connections@);
        }
        match self.find_conn(id) {
            Some(i) => Some((self.connections[i].queue, self.connections[i].authenticated)),
            None => None,
        }
    }

    /// Whether the device has an authenticated live connection.
    pub fn is_online(&self, id: &String) -> (r: bool)
        requires
            self.wf(),
        ensures
            r == self@.online(id@),
    {
        match self.connection_info(id) {
            Some(info) => info.1,
            None => false,
        }
    }

    /// A copy of the registry, for persisting it as a whole.
    pub fn registry_snapshot(&self) -> (r: Vec<Device>)
        ensures
            r@.len() == self.devices@.len(),
            forall|i: int| 0 <= i < r@.len() ==> (#[trigger] r@[i])@ == self.devices@[i]@,
    {
        let n = self.devices.len();
        let mut r: Vec<Device> = Vec::new();
        let mut i: usize = 0;
        while i < n
            invariant
                n == self.devices@.len(),
                0 <= i <= n,
                r@.len() == i,
                forall|j: int| 0 <= j < i ==> (#[trigger] r@[j])@ == self.devices@[j]@,
            decreases n - i,
        {
            r.push(self.devices[i].duplicate());
            i = i + 1;
        }
        r
    }

    /// How many connections are authenticated, and — when exactly one is —
    /// which device it belongs to.
    pub fn authenticated_summary(&self) -> (r: (usize, Option<String>))
        requires
            self.wf(),
        ensures
            r.0 == auth_count(self.connections@),
            (r.0 == 0) <==> (r.1 is None),
            r.1 matches Some(id) ==> self@.online(id@),
            r.0 == 1 ==> (r.1 matches Some(id) && forall|j: int|
                0 <= j < self.connections@.len() && (#[trigger] self
                    .connections@[j]).authenticated ==> self.connections@[j].device_id@ == id@),
    {
        proof {
            lemma_conns_map(self.connections@);
        }
        let n = self.connections.len();
        let mut count: usize = 0;
        let mut found: Option<String> = None;
        let mut i: usize = 0;
        while i < n
            invariant
                self.wf(),
                n == self.connections@.len(),
                0 <= i <= n,
                count <= i,
                count == auth_count(self.connections@.subrange(0, i as int)),
                (count == 0) <==> (found is None),
                found matches Some(f) ==> exists|j: int|
                    0 <= j < i && (#[trigger] self.connections@[j]).authenticated && self
                        .connections@[j].device_id@ == f@,
                count == 1 ==> (found matches Some(f) && forall|j: int|
                    0 <= j < i && (#[trigger] self.connections@[j]).authenticated ==> self
                        .connections@[j].device_id@ == f@),
            decreases n - i,
        {
            proof {
                assert(self.connections@.subrange(0, i + 1 as int).drop_last()
                    =~= self.connections@.subrange(0, i as int));
                assert(self.connections@.subrange(0, i + 1 as int).last()
                    == self.connections@[i as int]);
                lemma_auth_count_zero(self.connections@.subrange(0, i as int));
                assert(forall|j: int|
                    0 <= j < i ==> self.connections@.subrange(0, i as int)[j]
                        == self.connections@[j]);
            }
            if self.connections[i].authenticated {
                count = count + 1;
                if found.is_none() {
                    found = Some(self.connections[i].device_id.clone());
                }
            }
            i = i + 1;
        }
        proof {
            assert(self.connections@.subrange(0, n as int) =~= self.connections@);
        }
        (count, found)
    }

    /// One listing row per registry record, with liveness read from the
    /// connection table at call time.
    pub fn devices_overview(&self) -> (r: Vec<DeviceInfo>)
        requires
            self.wf(),
        ensures
            r@.len() == self.devices@.len(),
            forall|i: int|
                0 <= i < r@.len() ==> (#[trigger] r@[i]).id@ == self.devices@[i].id@
                    && r@[i].name@ == self.devices@[i].name@ && r@[i].paired_at
                    == self.devices@[i].paired_at && r@[i].online == self@.online(
                    self.devices@[i].id@,
                ),
    {
        let n = self.devices.len();
        let mut r: Vec<DeviceInfo> = Vec::new();
        let mut i: usize = 0;
        while i < n
            invariant
                self.wf(),
                n == self.devices@.len(),
                0 <= i <= n,
                r@.len() == i,
                forall|j: int|
                    0 <= j < i ==> (#[trigger] r@[j]).id@ == self.devices@[j].id@ && r@[j].name@
                        == self.devices@[j].name@ && r@[j].paired_at
                        == self.devices@[j].paired_at && r@[j].online == self@.online(
                        self.devices@[j].id@,
                    ),
            decreases n - i,
        {
            let online = self.is_online(&self.devices[i].id);
            r.push(
                DeviceInfo {
                    id: self.devices[i].id.clone(),
                    name: self.devices[i].name.clone(),
                    online: online,
                    paired_at: self.devices[i].paired_at,
                },
            );
            i = i + 1;
        }
        r
    }

    /// The status report: how many devices are known and how many of them
    /// are online right now.
    pub fn status_report(&self, version: String, uptime_secs: u64) -> (r: ServerStatus)
        requires
            self.wf(),
        ensures
            r.version@ == version@,
            r.uptime_secs == uptime_secs,
            r.devices_online == auth_count(self.connections@),
            r.devices_total == self.devices@.len(),
    {
        let (online, _) = self.authenticated_summary();
        ServerStatus {
            version: version,
            uptime_secs: uptime_secs,
            devices_online: online,
            devices_total: self.devices.len(),
        }
    }

    /// A fresh state: the loaded registry (records with an empty token or a
    /// repeated id are dropped, later records winning) and empty ephemeral
    /// ledgers.
    pub fn new(api_key: String, devices: Vec<Device>, apns_configured: bool) -> (r: AppState)
        ensures
            r.wf(),
            r@ == (StateModel {
                registry: loaded_registry(devices@),
                connections: Map::empty(),
                pairings: Map::empty(),
                pending: Set::empty(),
                api_key: api_key@,
                apns_configured: apns_configured,
            }),
    {
        let ghost ak = api_key@;
        let mut st = AppState {
            connections: Vec::new(),
            devices: Vec::new(),
            pending_pairings: Vec::new(),
            pending_commands: Vec::new(),
            api_key: api_key,
            apns_configured: apns_configured,
        };
        let n = devices.len();
        let mut i: usize = 0;
        while i < n
            invariant
                st.wf(),
                n == devices@.len(),
                0 <= i <= n,
                st@.registry == loaded_registry(devices@.subrange(0, i as int)),
                st@.connections == Map::<Seq<char>, ConnModel>::empty(),
                st@.pairings == Map::<u32, PairingModel>::empty(),
                st@.pending == Set::<Seq<char>>::empty(),
                st@.api_key == ak,
                st@.apns_configured == apns_configured,
            decreases n - i,
        {
            proof {
                assert(devices@.subrange(0, i + 1 as int).drop_last() =~= devices@.subrange(
                    0,
                    i as int,
                ));
                assert(devices@.subrange(0, i + 1 as int).last() == devices@[i as int]);
            }
            if !device_token_empty(&devices[i]) {
                st.put_device(devices[i].duplicate());
            }
            i = i + 1;
        }
        proof {
            assert(devices@.subrange(0, n as int) =~= devices@);
        }
        st
    }

    /// Index of the pending command entry for `cmd_id`, if any.
    fn find_pending(&self, cmd_id: &String) -> (r: Option<usize>)
        ensures
            match r {
                Some(i) => i < self.pending_commands@.len() && self.pending_commands@[i as int]@
                    == cmd_id@,
                None => forall|i: int|
                    0 <= i < self.pending_commands@.len() ==> (#[trigger] self
                        .pending_commands@[i])@ != cmd_id@,
            },
    {
        let n = self.pending_commands.len();
        let mut i: usize = 0;
        while i < n
            invariant
                n == self.pending_commands@.len(),
                0 <= i <= n,
                forall|j: int| 0 <= j < i ==> (#[trigger] self.pending_commands@[j])@ != cmd_id@,
            decreases n - i,
        {
            if self.pending_commands[i] == *cmd_id {
                return Some(i);
            }
            i = i + 1;
        }
        None
    }
}

} // verus!
