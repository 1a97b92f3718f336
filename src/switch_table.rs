//! The address-learning table: which port each source MAC was first seen on.
use vstd::prelude::*;

verus! {

/// MAC address to port, held in a hashbrown map. Its entries are keyed by the
/// bytes of each address.
#[verifier::external_body]
pub struct MacPortMap {
    map: hashbrown::HashMap<[u8; 6], usize>,
}

/// The entries of a `MacPortMap`.
pub uninterp spec fn mac_port_entries(m: MacPortMap) -> Map<Seq<u8>, usize>;

impl MacPortMap {
    /// Relies on hashbrown::HashMap::new: the map starts empty.
    #[verifier::external_body]
    fn new() -> (r: Self)
        ensures
            mac_port_entries(r).dom() == Set::<Seq<u8>>::empty(),
    {
        MacPortMap { map: hashbrown::HashMap::new() }
    }

    /// Relies on hashbrown::HashMap::get: the port stored under `mac`, if any.
    #[verifier::external_body]
    fn get(&self, mac: &[u8; 6]) -> (r: Option<usize>)
        ensures
            r == if mac_port_entries(*self).contains_key(mac@) {
                Some(mac_port_entries(*self)[mac@])
            } else {
                None::<usize>
            },
    {
        self.map.get(mac).copied()
    }

    /// Relies on hashbrown::HashMap::contains_key: whether `mac` has an entry.
    #[verifier::external_body]
    fn contains_key(&self, mac: &[u8; 6]) -> (r: bool)
        ensures
            r == mac_port_entries(*self).contains_key(mac@),
    {
        self.map.contains_key(mac)
    }

    /// Relies on hashbrown::HashMap::insert: `mac` maps to `port` afterwards,
    /// the other entries stay.
    #[verifier::external_body]
    fn insert(&mut self, mac: [u8; 6], port: usize)
        ensures
            mac_port_entries(*final(self)) == mac_port_entries(*old(self)).insert(mac@, port),
    {
        self.map.insert(mac, port);
    }

    /// Relies on hashbrown::HashMap::len: the number of entries.
    #[verifier::external_body]
    fn len(&self) -> (r: usize)
        ensures
            r as nat == mac_port_entries(*self).dom().len(),
    {
        self.map.len()
    }
}

/// The table after seeing `mac` as a source on `port`: a MAC already learned
/// keeps its port, a new one is learned on `port`.
pub open spec fn observed(t: Map<Seq<u8>, usize>, mac: Seq<u8>, port: usize) -> Map<Seq<u8>, usize> {
    if t.contains_key(mac) {
        t
    } else {
        t.insert(mac, port)
    }
}

/// The learning table. First writer wins: a learned MAC never moves.
pub struct SwitchTable {
    map: MacPortMap,
}

impl View for SwitchTable {
    type V = Map<Seq<u8>, usize>;

    closed spec fn view(&self) -> Map<Seq<u8>, usize> {
        mac_port_entries(self.map)
    }
}

impl SwitchTable {
    /// An empty table.
    pub fn new() -> (r: Self)
        ensures
            r@.dom() == Set::<Seq<u8>>::empty(),
    {
        SwitchTable { map: MacPortMap::new() }
    }

    /// Learns `src_mac` on `port` unless it is already learned.
    pub fn observe(&mut self, src_mac: [u8; 6], port: usize)
        ensures
            final(self)@ == observed(old(self)@, src_mac@, port),
    {
        if !self.map.contains_key(&src_mac) {
            self.map.insert(src_mac, port);
        }
    }

    /// The port `dst_mac` was learned on, if it was.
    pub fn lookup(&self, dst_mac: &[u8; 6]) -> (r: Option<usize>)
        ensures
            r == if self@.contains_key(dst_mac@) {
                Some(self@[dst_mac@])
            } else {
                None::<usize>
            },
    {
        self.map.get(dst_mac)
    }

    /// The number of learned MACs.
    pub fn len(&self) -> (r: usize)
        ensures
            r as nat == self@.dom().len(),
    {
        self.map.len()
    }
}

/// Observing is idempotent: seeing a learned MAC again, on the same port or
/// on another, leaves the table as it was, so the MAC keeps the port it was
/// first learned on; and observing adds at most the one key.
pub proof fn lemma_observe_idempotent(t: Map<Seq<u8>, usize>, mac: Seq<u8>, p1: usize, p2: usize)
    ensures
        observed(observed(t, mac, p1), mac, p2) == observed(t, mac, p1),
        observed(t, mac, p1).contains_key(mac),
        observed(t, mac, p1)[mac] == if t.contains_key(mac) {
            t[mac]
        } else {
            p1
        },
        observed(t, mac, p1).dom() == t.dom().insert(mac),
{
    if t.contains_key(mac) {
        assert(t.dom().insert(mac) =~= t.dom());
    }
}

/// First writer wins: observing any address keeps every learned address on
/// the port it was learned on.
pub proof fn lemma_learned_never_moves(t: Map<Seq<u8>, usize>, mac: Seq<u8>, port: usize)
    ensures
        forall|k: Seq<u8>|
            t.contains_key(k) ==> #[trigger] observed(t, mac, port).contains_key(k) && observed(
                t,
                mac,
                port,
            )[k] == t[k],
{
}

} // verus!
