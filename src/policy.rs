//! Nodes of the network and their publish/subscribe policy.
use vstd::prelude::*;
use std::str::FromStr;

verus! {

/// A node as configuration describes it, addresses still as text.
pub struct Component {
    pub name: String,
    pub iface: String,
    pub mac: String,
    pub ip: String,
    pub sends: Vec<String>,
    pub receives: Vec<String>,
}

/// The text of each string in a list.
pub open spec fn texts(v: Seq<String>) -> Seq<Seq<char>> {
    v.map_values(|s: String| s@)
}

/// What a `Component` holds, as text.
pub struct ComponentView {
    pub name: Seq<char>,
    pub iface: Seq<char>,
    pub mac: Seq<char>,
    pub ip: Seq<char>,
    pub sends: Seq<Seq<char>>,
    pub receives: Seq<Seq<char>>,
}

impl View for Component {
    type V = ComponentView;

    open spec fn view(&self) -> ComponentView {
        ComponentView {
            name: self.name@,
            iface: self.iface@,
            mac: self.mac@,
            ip: self.ip@,
            sends: texts(self.sends@),
            receives: texts(self.receives@),
        }
    }
}

fn copy_strings(v: &Vec<String>) -> (r: Vec<String>)
    ensures
        texts(r@) == texts(v@),
{
    let mut r: Vec<String> = Vec::new();
    for i in 0..v.len()
        invariant
            r@.len() == i,
            forall|j: int| 0 <= j < i ==> (#[trigger] r@[j])@ == v@[j]@,
    {
        r.push(v[i].clone());
    }
    assert(texts(r@) =~= texts(v@));
    r
}

fn copy_component(c: &Component) -> (r: Component)
    ensures
        r@ == c@,
{
    Component {
        name: c.name.clone(),
        iface: c.iface.clone(),
        mac: c.mac.clone(),
        ip: c.ip.clone(),
        sends: copy_strings(&c.sends),
        receives: copy_strings(&c.receives),
    }
}

/// The configured components, each under a unique key.
pub struct PolicyHandler {
    policy: Vec<(String, Component)>,
}

/// The keys of a policy are unique.
pub open spec fn keys_unique(entries: Seq<(String, Component)>) -> bool {
    forall|i: int, j: int|
        0 <= i < j < entries.len() ==> (#[trigger] entries[i]).0@ != (#[trigger] entries[j]).0@
}

impl PolicyHandler {
    /// The entries, in the order they were first inserted.
    pub closed spec fn entries(&self) -> Seq<(String, Component)> {
        self.policy@
    }

    pub closed spec fn well_formed(&self) -> bool {
        keys_unique(self.policy@)
    }

    /// No components.
    pub fn empty() -> (r: Self)
        ensures
            r.well_formed(),
            r.entries().len() == 0,
    {
        PolicyHandler { policy: Vec::new() }
    }

    /// Puts `component` under `key`, replacing what that key held.
    pub fn insert(&mut self, key: String, component: Component)
        requires
            old(self).well_formed(),
        ensures
            final(self).well_formed(),
            match position_of_key(old(self).entries(), key@) {
                Some(i) => final(self).entries() == old(self).entries().update(i, (key, component)),
                None => final(self).entries() == old(self).entries().push((key, component)),
            },
    {
        let mut i: usize = 0;
        while i < self.policy.len()
            invariant
                i <= self.policy@.len(),
                self.policy@ == old(self).policy@,
                keys_unique(self.policy@),
                forall|j: int| 0 <= j < i ==> (#[trigger] self.policy@[j]).0@ != key@,
            decreases self.policy@.len() - i,
        {
            if self.policy[i].0 == key {
                proof {
                    lemma_position_of_key(self.policy@, key@, i as int);
                }
                let ghost before = self.policy@;
                self.policy.set(i, (key, component));
                proof {
                    assert forall|a: int, b: int|
                        0 <= a < b < self.policy@.len() implies (#[trigger] self.policy@[a]).0@
                        != (#[trigger] self.policy@[b]).0@ by {
                        assert(before[a].0@ != before[b].0@);
                    }
                }
                return;
            }
            i += 1;
        }
        proof {
            lemma_position_of_key_none(self.policy@, key@);
        }
        let ghost before = self.policy@;
        self.policy.push((key, component));
        proof {
            assert forall|a: int, b: int|
                0 <= a < b < self.policy@.len() implies (#[trigger] self.policy@[a]).0@
                != (#[trigger] self.policy@[b]).0@ by {
                if b < before.len() {
                    assert(before[a].0@ != before[b].0@);
                } else {
                    assert(before[a].0@ != key@);
                }
            }
        }
    }

    /// Copies of the configured components, in the order of the entries.
    pub fn get_policy(&self) -> (r: Vec<Component>)
        ensures
            r@.len() == self.entries().len(),
            forall|i: int| 0 <= i < r@.len() ==> (#[trigger] r@[i])@ == self.entries()[i].1@,
    {
        let mut r: Vec<Component> = Vec::new();
        for i in 0..self.policy.len()
            invariant
                r@.len() == i,
                forall|j: int| 0 <= j < i ==> (#[trigger] r@[j])@ == self.policy@[j].1@,
        {
            r.push(copy_component(&self.policy[i].1));
        }
        r
    }
}

/// Where `key` stands among the entries, if it does.
pub open spec fn position_of_key(entries: Seq<(String, Component)>, key: Seq<char>) -> Option<int> {
    if exists|i: int| 0 <= i < entries.len() && (#[trigger] entries[i]).0@ == key {
        Some(choose|i: int| 0 <= i < entries.len() && (#[trigger] entries[i]).0@ == key)
    } else {
        None
    }
}

proof fn lemma_position_of_key(entries: Seq<(String, Component)>, key: Seq<char>, i: int)
    requires
        keys_unique(entries),
        0 <= i < entries.len(),
        entries[i].0@ == key,
    ensures
        position_of_key(entries, key) == Some(i),
{
    let k = choose|k: int| 0 <= k < entries.len() && (#[trigger] entries[k]).0@ == key;
    if k != i {
        if k < i {
            assert(entries[k].0@ != entries[i].0@);
        } else {
            assert(entries[i].0@ != entries[k].0@);
        }
    }
}

proof fn lemma_position_of_key_none(entries: Seq<(String, Component)>, key: Seq<char>)
    requires
        forall|j: int| 0 <= j < entries.len() ==> (#[trigger] entries[j]).0@ != key,
    ensures
        position_of_key(entries, key) is None,
{
}

/// The six bytes that pnet reads from a MAC address text, if it reads it.
pub uninterp spec fn parsed_mac(text: Seq<char>) -> Option<Seq<u8>>;

/// Relies on pnet's `FromStr for MacAddr` (six hexadecimal components
/// separated by colons): whether it accepts the text and which bytes it
/// reads depend on the text alone.
#[verifier::external_body]
fn mac_from_text(text: &str) -> (r: Option<[u8; 6]>)
    ensures
        match r {
            Some(m) => parsed_mac(text@) == Some(m@),
            None => parsed_mac(text@) is None,
        },
{
    match pnet::util::MacAddr::from_str(text) {
        Ok(m) => Some(m.octets()),
        Err(_) => None,
    }
}

/// Why configuration does not give a node.
#[derive(Clone, Copy, Debug, PartialEq, Eq, Structural)]
pub enum ConfigError {
    /// The MAC address text is not six colon-separated hexadecimal bytes.
    BadMac,
}

/// A node of the network. Its port is its index in the node list.
pub struct Node {
    pub name: String,
    pub iface: String,
    pub mac: [u8; 6],
    pub ip: [u8; 4],
    /// Prefixes (`$` + talker code + type code) the node may publish.
    pub sends: Vec<String>,
    /// Prefixes the node subscribes to.
    pub receives: Vec<String>,
}

/// `p` is one of the listed prefixes.
pub open spec fn lists(v: Seq<String>, p: Seq<char>) -> bool {
    exists|i: int| 0 <= i < v.len() && (#[trigger] v[i])@ == p
}

fn contains_text(v: &Vec<String>, p: &String) -> (r: bool)
    ensures
        r == lists(v@, p@),
{
    for i in 0..v.len()
        invariant
            forall|j: int| 0 <= j < i ==> (#[trigger] v@[j])@ != p@,
    {
        if v[i] == *p {
            return true;
        }
    }
    false
}

/// The node may publish sentences with this prefix.
pub fn may_send(node: &Node, prefix: &String) -> (r: bool)
    ensures
        r == lists(node.sends@, prefix@),
{
    contains_text(&node.sends, prefix)
}

/// The node subscribes to sentences with this prefix.
pub fn may_receive(node: &Node, prefix: &String) -> (r: bool)
    ensures
        r == lists(node.receives@, prefix@),
{
    contains_text(&node.receives, prefix)
}

impl Node {
    /// A node from a component whose MAC address was read as `mac` and IPv4
    /// address as `ip`.
    pub fn from_parts(c: &Component, mac: [u8; 6], ip: [u8; 4]) -> (r: Node)
        ensures
            r.name@ == c.name@,
            r.iface@ == c.iface@,
            r.mac == mac,
            r.ip == ip,
            texts(r.sends@) == texts(c.sends@),
            texts(r.receives@) == texts(c.receives@),
    {
        Node {
            name: c.name.clone(),
            iface: c.iface.clone(),
            mac,
            ip,
            sends: copy_strings(&c.sends),
            receives: copy_strings(&c.receives),
        }
    }

    /// A node from a component, its MAC address read from the component's
    /// text and its IPv4 address given; `BadMac` when the text is no MAC.
    pub fn from_component(c: &Component, ip: [u8; 4]) -> (r: Result<Node, ConfigError>)
        ensures
            match r {
                Ok(n) => parsed_mac(c.mac@) == Some(n.mac@) && n.name@ == c.name@ && n.iface@
                    == c.iface@ && n.ip == ip && texts(n.sends@) == texts(c.sends@) && texts(
                    n.receives@,
                ) == texts(c.receives@),
                Err(e) => e == ConfigError::BadMac && parsed_mac(c.mac@) is None,
            },
    {
        match mac_from_text(c.mac.as_str()) {
            Some(mac) => Ok(Node::from_parts(c, mac, ip)),
            None => Err(ConfigError::BadMac),
        }
    }
}

} // verus!
