use vstd::prelude::*;

use crate::config::{Function, OpenFaaSConfig};
use crate::text::same_text;
use vstd::string::StringExecFns;

verus! {

/// Where a service stands in its life.
#[derive(Clone, Copy, Debug, PartialEq, Eq, Structural)]
pub enum Status {
    /// Claimed by one request, which is finding a port or launching it.
    Starting,
    /// Verified as listening; kept for the gateway's lifetime.
    Running,
}

/// An IPv4 address.
#[derive(Clone, Copy, Debug, PartialEq, Eq, Structural)]
pub struct Address {
    pub a: u8,
    pub b: u8,
    pub c: u8,
    pub d: u8,
}

/// Where a running service listens.
#[derive(Clone, Copy, Debug, PartialEq, Eq, Structural)]
pub struct Endpoint {
    pub address: Address,
    pub port: u16,
}

/// The registry's record of one service: the port it holds and its status.
#[derive(Clone, Copy, Debug, PartialEq, Eq, Structural)]
pub struct Slot {
    pub port: u16,
    pub status: Status,
}

/// One service name with its record.
pub struct Entry {
    pub name: String,
    pub slot: Slot,
}

pub open spec fn loopback_spec() -> Address {
    Address { a: 127, b: 0, c: 0, d: 1 }
}

/// The loopback address, where every service listens.
pub fn loopback() -> (r: Address)
    ensures
        r == loopback_spec(),
{
    Address { a: 127, b: 0, c: 0, d: 1 }
}

/// The endpoint of a service that listens on `port`.
pub open spec fn endpoint_at(port: u16) -> Endpoint {
    Endpoint { address: loopback_spec(), port }
}

/// Some service of `slots` holds `port`.
pub open spec fn held(slots: Map<Seq<char>, Slot>, port: int) -> bool {
    exists|n: Seq<char>| slots.contains_key(n) && #[trigger] slots[n].port == port
}

/// No two services of `slots` hold the same port.
pub open spec fn ports_distinct(slots: Map<Seq<char>, Slot>) -> bool {
    forall|n: Seq<char>, m: Seq<char>|
        slots.contains_key(n) && slots.contains_key(m) && n != m ==> #[trigger] slots[n].port
            != #[trigger] slots[m].port
}

/// The services known to the gateway and where they stand, with the
/// configuration that says which names may be started.
pub struct Registry {
    pub config: OpenFaaSConfig,
    pub entries: Vec<Entry>,
}

impl Registry {
    pub open spec fn has_name(&self, n: Seq<char>) -> bool {
        exists|i: int| 0 <= i < self.entries@.len() && #[trigger] self.entries@[i].name@ == n
    }

    /// Each service name with its record.
    pub open spec fn view(&self) -> Map<Seq<char>, Slot> {
        Map::new(
            |n: Seq<char>| self.has_name(n),
            |n: Seq<char>|
                self.entries@[choose|i: int|
                    0 <= i < self.entries@.len() && #[trigger] self.entries@[i].name@ == n].slot,
        )
    }

    /// Names are unique, ports are unique, and the configuration is sound.
    pub open spec fn wf(&self) -> bool {
        &&& self.config.wf()
        &&& forall|i: int, j: int|
            0 <= i < j < self.entries@.len() ==> #[trigger] self.entries@[i].name@
                != #[trigger] self.entries@[j].name@
        &&& forall|i: int, j: int|
            0 <= i < j < self.entries@.len() ==> #[trigger] self.entries@[i].slot.port
                != #[trigger] self.entries@[j].slot.port
    }

    /// `name` may be started: it is configured, or it is the built-in `echo`.
    pub open spec fn known(&self, name: Seq<char>) -> bool {
        self.config.has_function(name) || name == "echo"@
    }

    pub proof fn lemma_view_at(&self, i: int)
        requires
            self.wf(),
            0 <= i < self.entries@.len(),
        ensures
            self@.contains_key(self.entries@[i].name@),
            self@[self.entries@[i].name@] == self.entries@[i].slot,
    {
        let n = self.entries@[i].name@;
        assert(self.has_name(n));
        let j = choose|j: int| 0 <= j < self.entries@.len() && #[trigger] self.entries@[j].name@ == n;
        assert(j == i);
    }

    pub proof fn lemma_held(&self, port: int)
        requires
            self.wf(),
        ensures
            held(self@, port) <==> exists|i: int|
                0 <= i < self.entries@.len() && #[trigger] self.entries@[i].slot.port == port,
    {
        if held(self@, port) {
            let n = choose|n: Seq<char>| self@.contains_key(n) && #[trigger] self@[n].port == port;
            let i = choose|i: int| 0 <= i < self.entries@.len() && #[trigger] self.entries@[i].name@ == n;
            self.lemma_view_at(i);
        }
        if exists|i: int| 0 <= i < self.entries@.len() && #[trigger] self.entries@[i].slot.port == port {
            let i = choose|i: int| 0 <= i < self.entries@.len() && #[trigger] self.entries@[i].slot.port == port;
            self.lemma_view_at(i);
            assert(self@[self.entries@[i].name@].port == port);
        }
    }

    pub proof fn lemma_ports_distinct(&self)
        requires
            self.wf(),
        ensures
            ports_distinct(self@),
    {
        assert forall|n: Seq<char>, m: Seq<char>|
            self@.contains_key(n) && self@.contains_key(m) && n != m implies #[trigger] self@[n].port
                != #[trigger] self@[m].port by {
            let i = choose|i: int| 0 <= i < self.entries@.len() && #[trigger] self.entries@[i].name@ == n;
            let j = choose|j: int| 0 <= j < self.entries@.len() && #[trigger] self.entries@[j].name@ == m;
            self.lemma_view_at(i);
            self.lemma_view_at(j);
        }
    }

    /// An empty registry over `config`.
    pub fn new(config: OpenFaaSConfig) -> (r: Self)
        requires
            config.wf(),
        ensures
            r.wf(),
            r.config == config,
            r@ == Map::<Seq<char>, Slot>::empty(),
    {
        let r = Registry { config, entries: Vec::new() };
        assert(r@ =~= Map::<Seq<char>, Slot>::empty());
        r
    }

    /// The position of `name` among the entries.
    pub fn lookup(&self, name: &str) -> (r: Option<usize>)
        requires
            self.wf(),
        ensures
            r is None <==> !self@.contains_key(name@),
            r matches Some(i) ==> i < self.entries@.len() && self.entries@[i as int].name@ == name@
                && self@[name@] == self.entries@[i as int].slot,
    {
        let mut i: usize = 0;
        while i < self.entries.len()
            invariant
                self.wf(),
                i <= self.entries@.len(),
                forall|k: int| 0 <= k < i ==> #[trigger] self.entries@[k].name@ != name@,
            decreases self.entries.len() - i,
        {
            if same_text(self.entries[i].name.as_str(), name) {
                proof {
                    self.lemma_view_at(i as int);
                }
                return Some(i);
            }
            i = i + 1;
        }
        None
    }

    /// Whether some service holds `port`.
    pub fn is_held(&self, port: u16) -> (r: bool)
        requires
            self.wf(),
        ensures
            r == held(self@, port as int),
    {
        proof {
            self.lemma_held(port as int);
        }
        let mut i: usize = 0;
        while i < self.entries.len()
            invariant
                self.wf(),
                i <= self.entries@.len(),
                forall|k: int| 0 <= k < i ==> #[trigger] self.entries@[k].slot.port != port,
            decreases self.entries.len() - i,
        {
            if self.entries[i].slot.port == port {
                proof {
                    self.lemma_view_at(i as int);
                    assert(self@[self.entries@[i as int].name@].port == port);
                }
                return true;
            }
            i = i + 1;
        }
        false
    }

    /// The endpoint of `service_name`, if it is running.
    pub fn get_service_endpoint(&self, service_name: &str) -> (r: Option<Endpoint>)
        requires
            self.wf(),
        ensures
            r == (if self@.contains_key(service_name@) && self@[service_name@].status == Status::Running {
                Some(endpoint_at(self@[service_name@].port))
            } else {
                None
            }),
    {
        match self.lookup(service_name) {
            Some(i) => {
                let slot = self.entries[i].slot;
                match slot.status {
                    Status::Running => Some(Endpoint { address: loopback(), port: slot.port }),
                    Status::Starting => None,
                }
            },
            None => None,
        }
    }

    /// Records `slot` for `service_name`, replacing its former record.
    pub fn insert_service(&mut self, service_name: &str, slot: Slot)
        requires
            old(self).wf(),
            forall|n: Seq<char>|
                old(self)@.contains_key(n) && n != service_name@ ==> #[trigger] old(self)@[n].port
                    != slot.port,
        ensures
            final(self).wf(),
            final(self).config == old(self).config,
            final(self)@ == old(self)@.insert(service_name@, slot),
    {
        let ghost pre = *self;
        proof {
            assert forall|k: int| 0 <= k < pre.entries@.len() && pre.entries@[k].name@ != service_name@
                implies #[trigger] pre.entries@[k].slot.port != slot.port by {
                pre.lemma_view_at(k);
            }
        }
        match self.lookup(service_name) {
            Some(i) => {
                let ghost j = i as int;
                self.entries.set(i, Entry { name: String::from_str(service_name), slot });
                assert(self.entries@[j].name@ == service_name@);
                assert(self.wf());
                proof {
                    assert forall|n: Seq<char>| #[trigger] self@.contains_key(n) == pre@.insert(service_name@, slot).contains_key(n) by {
                        if pre.has_name(n) {
                            let k = choose|k: int| 0 <= k < pre.entries@.len() && #[trigger] pre.entries@[k].name@ == n;
                            assert(self.entries@[k].name@ == n);
                        }
                        if self.has_name(n) {
                            let k = choose|k: int| 0 <= k < self.entries@.len() && #[trigger] self.entries@[k].name@ == n;
                            assert(pre.entries@[k].name@ == n);
                        }
                    }
                    assert forall|n: Seq<char>| #[trigger] self@.contains_key(n) implies self@[n] == pre@.insert(service_name@, slot)[n] by {
                        let k = choose|k: int| 0 <= k < self.entries@.len() && #[trigger] self.entries@[k].name@ == n;
                        self.lemma_view_at(k);
                        if k != j {
                            assert(pre.entries@[k] == self.entries@[k]);
                            pre.lemma_view_at(k);
                        }
                    }
                    assert(self@ =~= pre@.insert(service_name@, slot));
                }
            },
            None => {
                self.entries.push(Entry { name: String::from_str(service_name), slot });
                let ghost j = pre.entries@.len() as int;
                assert(self.entries@[j].name@ == service_name@);
                assert forall|k: int| 0 <= k < j implies #[trigger] self.entries@[k] == pre.entries@[k] by {}
                assert(self.wf()) by {
                    assert forall|a: int, b: int| 0 <= a < b < self.entries@.len() implies
                        #[trigger] self.entries@[a].name@ != #[trigger] self.entries@[b].name@ by {
                        if b == j {
                            assert(pre.has_name(pre.entries@[a].name@));
                        }
                    }
                }
                proof {
                    assert forall|n: Seq<char>| #[trigger] self@.contains_key(n) == pre@.insert(service_name@, slot).contains_key(n) by {
                        if pre.has_name(n) {
                            let k = choose|k: int| 0 <= k < pre.entries@.len() && #[trigger] pre.entries@[k].name@ == n;
                            assert(self.entries@[k].name@ == n);
                        }
                        if self.has_name(n) {
                            let k = choose|k: int| 0 <= k < self.entries@.len() && #[trigger] self.entries@[k].name@ == n;
                            if k < j {
                                assert(pre.entries@[k].name@ == n);
                            }
                        }
                    }
                    assert forall|n: Seq<char>| #[trigger] self@.contains_key(n) implies self@[n] == pre@.insert(service_name@, slot)[n] by {
                        let k = choose|k: int| 0 <= k < self.entries@.len() && #[trigger] self.entries@[k].name@ == n;
                        self.lemma_view_at(k);
                        if k != j {
                            pre.lemma_view_at(k);
                        }
                    }
                    assert(self@ =~= pre@.insert(service_name@, slot));
                }
            },
        }
    }

    /// Forgets `service_name`.
    pub fn remove_service(&mut self, service_name: &str)
        requires
            old(self).wf(),
        ensures
            final(self).wf(),
            final(self).config == old(self).config,
            final(self)@ == old(self)@.remove(service_name@),
    {
        let ghost pre = *self;
        match self.lookup(service_name) {
            Some(i) => {
                let ghost j = i as int;
                let _gone = self.entries.remove(i);
                assert forall|k: int| 0 <= k < self.entries@.len() implies #[trigger] self.entries@[k]
                    == pre.entries@[if k < j { k } else { k + 1 }] by {}
                assert(self.wf()) by {
                    assert forall|a: int, b: int| 0 <= a < b < self.entries@.len() implies
                        #[trigger] self.entries@[a].name@ != #[trigger] self.entries@[b].name@ by {
                        let a2 = if a < j { a } else { a + 1 };
                        let b2 = if b < j { b } else { b + 1 };
                        assert(self.entries@[a] == pre.entries@[a2]);
                        assert(self.entries@[b] == pre.entries@[b2]);
                    }
                    assert forall|a: int, b: int| 0 <= a < b < self.entries@.len() implies
                        #[trigger] self.entries@[a].slot.port != #[trigger] self.entries@[b].slot.port by {
                        let a2 = if a < j { a } else { a + 1 };
                        let b2 = if b < j { b } else { b + 1 };
                        assert(self.entries@[a] == pre.entries@[a2]);
                        assert(self.entries@[b] == pre.entries@[b2]);
                    }
                }
                proof {
                    assert forall|n: Seq<char>| #[trigger] self@.contains_key(n) == pre@.remove(service_name@).contains_key(n) by {
                        if pre.has_name(n) && n != service_name@ {
                            let k = choose|k: int| 0 <= k < pre.entries@.len() && #[trigger] pre.entries@[k].name@ == n;
                            let k2 = if k < j { k } else { k - 1 };
                            assert(self.entries@[k2] == pre.entries@[k]);
                        }
                        if self.has_name(n) {
                            let k = choose|k: int| 0 <= k < self.entries@.len() && #[trigger] self.entries@[k].name@ == n;
                            let k2 = if k < j { k } else { k + 1 };
                            assert(self.entries@[k] == pre.entries@[k2]);
                            assert(pre.has_name(n));
                        }
                    }
                    assert forall|n: Seq<char>| #[trigger] self@.contains_key(n) implies self@[n] == pre@.remove(service_name@)[n] by {
                        let k = choose|k: int| 0 <= k < self.entries@.len() && #[trigger] self.entries@[k].name@ == n;
                        let k2 = if k < j { k } else { k + 1 };
                        assert(self.entries@[k] == pre.entries@[k2]);
                        self.lemma_view_at(k);
                        pre.lemma_view_at(k2);
                    }
                    assert(self@ =~= pre@.remove(service_name@));
                }
            },
            None => {
                assert(self@ =~= pre@.remove(service_name@));
            },
        }
    }

    /// Whether `service_name` is configured.
    pub fn check_service_config(&self, service_name: &str) -> (r: bool)
        ensures
            r == self.config.has_function(service_name@),
    {
        self.config.find(service_name).is_some()
    }

    /// The configured function of `service_name`.
    pub fn get_service_from_config(&self, service_name: &str) -> (r: Option<&Function>)
        requires
            self.config.wf(),
        ensures
            r is None <==> !self.config.has_function(service_name@),
            r matches Some(f) ==> f.name@ == service_name@ && f.image@ == self.config.image_of(service_name@),
    {
        match self.config.find(service_name) {
            Some(i) => {
                let ghost n = service_name@;
                proof {
                    let j = choose|j: int| 0 <= j < self.config.functions@.len() && #[trigger] self.config.functions@[j].name@ == n;
                    assert(j == i);
                }
                Some(&self.config.functions[i])
            },
            None => None,
        }
    }
}

} // verus!
