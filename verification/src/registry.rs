//! The registry of a gateway: which device id is bound to which
//! destination, and which server (with its worker) serves each address.
//!
//! Every bound device's server is registered, so a device found by id always
//! comes with the worker of its server. A server is dropped, and its worker
//! handed back for termination, when its last device is stopped or when the
//! server itself is stopped.

use vstd::prelude::*;

use crate::connection::{Destination, DestinationView, Device, DeviceView};

verus! {

/// No two entries of `s` have the same key.
pub open spec fn keys_unique<E, K>(s: Seq<E>, key: spec_fn(E) -> K) -> bool {
    forall|i: int, j: int|
        0 <= i < s.len() && 0 <= j < s.len() && i != j ==> key(#[trigger] s[i]) != key(
            #[trigger] s[j],
        )
}

/// Some entry of `s` has the key `k`.
pub open spec fn has_key<E, K>(s: Seq<E>, key: spec_fn(E) -> K, k: K) -> bool {
    exists|i: int| 0 <= i < s.len() && key(#[trigger] s[i]) == k
}

/// The position of an entry of `s` with the key `k`.
pub open spec fn key_index<E, K>(s: Seq<E>, key: spec_fn(E) -> K, k: K) -> int {
    choose|i: int| 0 <= i < s.len() && key(#[trigger] s[i]) == k
}

/// The map that a list of entries stands for: each key to the value of the
/// entry that has it.
pub open spec fn assoc_map<E, K, V>(s: Seq<E>, key: spec_fn(E) -> K, val: spec_fn(E) -> V) -> Map<
    K,
    V,
> {
    Map::new(|k: K| has_key(s, key, k), |k: K| val(s[key_index(s, key, k)]))
}

/// In a list with unique keys, the key of the entry at `i` is found at `i`.
pub proof fn lemma_key_index<E, K>(s: Seq<E>, key: spec_fn(E) -> K, i: int)
    requires
        keys_unique(s, key),
        0 <= i < s.len(),
    ensures
        has_key(s, key, key(s[i])),
        key_index(s, key, key(s[i])) == i,
{
    assert(has_key(s, key, key(s[i])));
}

/// Appending an entry with a new key inserts it in the map.
pub proof fn lemma_push<E, K, V>(s: Seq<E>, key: spec_fn(E) -> K, val: spec_fn(E) -> V, e: E)
    requires
        keys_unique(s, key),
        !has_key(s, key, key(e)),
    ensures
        keys_unique(s.push(e), key),
        assoc_map(s.push(e), key, val) =~= assoc_map(s, key, val).insert(key(e), val(e)),
{
    let t = s.push(e);
    assert forall|i: int, j: int|
        0 <= i < t.len() && 0 <= j < t.len() && i != j implies key(#[trigger] t[i]) != key(
        #[trigger] t[j],
    ) by {
        if i < s.len() && j < s.len() {
            assert(t[i] == s[i] && t[j] == s[j]);
        } else if i < s.len() {
            assert(t[i] == s[i]);
        } else {
            assert(t[j] == s[j]);
        }
    }
    lemma_key_index(t, key, s.len() as int);
    assert forall|k: K| has_key(t, key, k) <==> (has_key(s, key, k) || k == key(e)) by {
        if has_key(s, key, k) {
            let i = key_index(s, key, k);
            assert(t[i] == s[i]);
        }
        if has_key(t, key, k) && k != key(e) {
            let i = key_index(t, key, k);
            assert(t[i] == s[i]);
        }
    }
    assert forall|k: K| has_key(s, key, k) && k != key(e) implies val(
        t[key_index(t, key, k)],
    ) == val(s[key_index(s, key, k)]) by {
        let i = key_index(s, key, k);
        assert(t[i] == s[i]);
        lemma_key_index(t, key, i);
    }
}

/// Replacing the entry at `i` by one with the same key updates its value.
pub proof fn lemma_update<E, K, V>(
    s: Seq<E>,
    key: spec_fn(E) -> K,
    val: spec_fn(E) -> V,
    i: int,
    e: E,
)
    requires
        keys_unique(s, key),
        0 <= i < s.len(),
        key(e) == key(s[i]),
    ensures
        keys_unique(s.update(i, e), key),
        assoc_map(s.update(i, e), key, val) =~= assoc_map(s, key, val).insert(key(e), val(e)),
{
    let t = s.update(i, e);
    assert forall|a: int, b: int|
        0 <= a < t.len() && 0 <= b < t.len() && a != b implies key(#[trigger] t[a]) != key(
        #[trigger] t[b],
    ) by {
        assert(key(t[a]) == key(s[a]));
        assert(key(t[b]) == key(s[b]));
    }
    assert forall|k: K| has_key(t, key, k) <==> has_key(s, key, k) by {
        if has_key(s, key, k) {
            let j = key_index(s, key, k);
            assert(key(t[j]) == key(s[j]));
        }
        if has_key(t, key, k) {
            let j = key_index(t, key, k);
            assert(key(t[j]) == key(s[j]));
        }
    }
    assert forall|k: K| has_key(s, key, k) implies val(t[key_index(t, key, k)]) == (if k == key(
        e,
    ) {
        val(e)
    } else {
        val(s[key_index(s, key, k)])
    }) by {
        let j = key_index(s, key, k);
        assert(key(t[j]) == key(s[j]));
        lemma_key_index(t, key, j);
    }
}

/// Removing the entry at `i` removes its key from the map.
pub proof fn lemma_remove<E, K, V>(s: Seq<E>, key: spec_fn(E) -> K, val: spec_fn(E) -> V, i: int)
    requires
        keys_unique(s, key),
        0 <= i < s.len(),
    ensures
        keys_unique(s.remove(i), key),
        assoc_map(s.remove(i), key, val) =~= assoc_map(s, key, val).remove(key(s[i])),
{
    let t = s.remove(i);
    assert forall|a: int, b: int|
        0 <= a < t.len() && 0 <= b < t.len() && a != b implies key(#[trigger] t[a]) != key(
        #[trigger] t[b],
    ) by {
        let a2 = if a < i { a } else { a + 1 };
        let b2 = if b < i { b } else { b + 1 };
        assert(t[a] == s[a2] && t[b] == s[b2]);
    }
    assert forall|k: K| has_key(t, key, k) <==> (has_key(s, key, k) && k != key(s[i])) by {
        if has_key(s, key, k) && k != key(s[i]) {
            let j = key_index(s, key, k);
            if j < i {
                assert(t[j] == s[j]);
            } else {
                assert(t[j - 1] == s[j]);
            }
        }
        if has_key(t, key, k) {
            let j = key_index(t, key, k);
            let j2 = if j < i { j } else { j + 1 };
            assert(t[j] == s[j2]);
        }
    }
    assert forall|k: K| has_key(t, key, k) implies val(t[key_index(t, key, k)]) == val(
        s[key_index(s, key, k)],
    ) by {
        let j = key_index(t, key, k);
        let j2 = if j < i { j } else { j + 1 };
        assert(t[j] == s[j2]);
        lemma_key_index(s, key, j2);
    }
}

/// A device id and the destination it is bound to.
#[derive(Debug)]
pub struct Binding {
    pub id: String,
    pub destination: Destination,
}

/// A server address and the worker that talks to it.
#[derive(Debug)]
pub struct Server<W> {
    pub device: Device,
    pub worker: W,
}

/// The key of a binding: its id.
pub open spec fn binding_id(b: Binding) -> Seq<char> {
    b.id@
}

/// The value of a binding: its destination.
pub open spec fn binding_destination(b: Binding) -> DestinationView {
    b.destination@
}

/// The key of a server: its address.
pub open spec fn server_device<W>(s: Server<W>) -> DeviceView {
    s.device@
}

/// The value of a server: its worker.
pub open spec fn server_worker<W>(s: Server<W>) -> W {
    s.worker
}

/// The devices bound to the gateway and the servers it talks to.
#[derive(Debug)]
pub struct Registry<W> {
    bindings: Vec<Binding>,
    servers: Vec<Server<W>>,
}

/// The bindings of `m` whose destination is not `d`.
pub open spec fn without_destination(
    m: Map<Seq<char>, DestinationView>,
    d: DestinationView,
) -> Map<Seq<char>, DestinationView> {
    Map::new(|k: Seq<char>| m.dom().contains(k) && m[k] != d, |k: Seq<char>| m[k])
}

/// The bindings of `m` whose destination is not on the server `a`.
pub open spec fn without_address(m: Map<Seq<char>, DestinationView>, a: DeviceView) -> Map<
    Seq<char>,
    DestinationView,
> {
    Map::new(|k: Seq<char>| m.dom().contains(k) && m[k].address != a, |k: Seq<char>| m[k])
}

/// Some binding of `m` has a destination on the server `a`.
pub open spec fn address_in_use(m: Map<Seq<char>, DestinationView>, a: DeviceView) -> bool {
    exists|k: Seq<char>| #[trigger] m.dom().contains(k) && m[k].address == a
}

impl<W> Registry<W> {
    /// Each bound device id and its destination.
    pub closed spec fn devices(&self) -> Map<Seq<char>, DestinationView> {
        assoc_map(self.bindings@, |b: Binding| binding_id(b), |b: Binding| binding_destination(b))
    }

    /// Each registered server address and its worker.
    pub closed spec fn servers(&self) -> Map<DeviceView, W> {
        assoc_map(self.servers@, |s: Server<W>| server_device(s), |s: Server<W>| server_worker(s))
    }

    /// The registry is well formed: ids and server addresses occur once,
    /// and the server of every bound device is registered.
    pub closed spec fn wf(&self) -> bool {
        &&& keys_unique(self.bindings@, |b: Binding| binding_id(b))
        &&& keys_unique(self.servers@, |s: Server<W>| server_device(s))
        &&& forall|k: Seq<char>| #[trigger]
            self.devices().dom().contains(k) ==> self.servers().dom().contains(
                self.devices()[k].address,
            )
    }

    proof fn lemma_binding_at(&self, i: int)
        requires
            self.wf(),
            0 <= i < self.bindings@.len(),
        ensures
            self.devices().dom().contains(self.bindings@[i].id@),
            self.devices()[self.bindings@[i].id@] == self.bindings@[i].destination@,
    {
        lemma_key_index(self.bindings@, |b: Binding| binding_id(b), i);
    }

    proof fn lemma_server_at(&self, i: int)
        requires
            self.wf(),
            0 <= i < self.servers@.len(),
        ensures
            self.servers().dom().contains(self.servers@[i].device@),
            self.servers()[self.servers@[i].device@] == self.servers@[i].worker,
    {
        lemma_key_index(self.servers@, |s: Server<W>| server_device(s), i);
    }

    /// An empty registry.
    pub fn new() -> (r: Registry<W>)
        ensures
            r.wf(),
            r.devices() =~= Map::<Seq<char>, DestinationView>::empty(),
            r.servers() =~= Map::<DeviceView, W>::empty(),
    {
        Registry { bindings: Vec::new(), servers: Vec::new() }
    }

    fn find_binding(&self, id: &str) -> (r: Option<usize>)
        requires
            self.wf(),
        ensures
            match r {
                Some(i) => i < self.bindings@.len() && self.bindings@[i as int].id@ == id@,
                None => !self.devices().dom().contains(id@),
            },
    {
        let key = id.to_owned();
        let mut i: usize = 0;
        while i < self.bindings.len()
            invariant
                key@ == id@,
                i <= self.bindings@.len(),
                forall|j: int| 0 <= j < i ==> (#[trigger] self.bindings@[j]).id@ != id@,
            decreases self.bindings@.len() - i,
        {
            if self.bindings[i].id == key {
                return Some(i);
            }
            i = i + 1;
        }
        None
    }

    fn find_server(&self, device: &Device) -> (r: Option<usize>)
        requires
            self.wf(),
        ensures
            match r {
                Some(i) => i < self.servers@.len() && self.servers@[i as int].device@ == device@,
                None => !self.servers().dom().contains(device@),
            },
    {
        let mut i: usize = 0;
        while i < self.servers.len()
            invariant
                i <= self.servers@.len(),
                forall|j: int| 0 <= j < i ==> (#[trigger] self.servers@[j]).device@ != device@,
            decreases self.servers@.len() - i,
        {
            if self.servers[i].device.same(device) {
                return Some(i);
            }
            i = i + 1;
        }
        None
    }

    /// Whether some bound device's destination is on the server `device`.
    pub fn in_use(&self, device: &Device) -> (r: bool)
        requires
            self.wf(),
        ensures
            r == address_in_use(self.devices(), device@),
    {
        let mut i: usize = 0;
        while i < self.bindings.len()
            invariant
                self.wf(),
                i <= self.bindings@.len(),
                forall|j: int|
                    0 <= j < i ==> (#[trigger] self.bindings@[j]).destination.address@
                        != device@,
            decreases self.bindings@.len() - i,
        {
            if self.bindings[i].destination.address.same(device) {
                proof {
                    self.lemma_binding_at(i as int);
                }
                return true;
            }
            i = i + 1;
        }
        proof {
            assert forall|k: Seq<char>| #[trigger]
                self.devices().dom().contains(k) implies self.devices()[k].address != device@ by {
                let j = key_index(self.bindings@, |b: Binding| binding_id(b), k);
                assert(self.bindings@[j].destination.address@ != device@);
            }
        }
        false
    }

    /// The worker of the server `device`, when it is registered.
    pub fn server(&self, device: &Device) -> (r: Option<&W>)
        requires
            self.wf(),
        ensures
            match r {
                Some(w) => self.servers().dom().contains(device@) && *w == self.servers()[device@],
                None => !self.servers().dom().contains(device@),
            },
    {
        match self.find_server(device) {
            Some(i) => {
                proof {
                    self.lemma_server_at(i as int);
                }
                Some(&self.servers[i].worker)
            },
            None => None,
        }
    }

    /// Registers the server `device` with a worker from `make`, unless it
    /// is registered already; the bindings stay as they are.
    pub fn get_server<F: FnOnce() -> W>(&mut self, device: &Device, make: F)
        requires
            old(self).wf(),
            make.requires(()),
        ensures
            final(self).wf(),
            final(self).devices() == old(self).devices(),
            old(self).servers().dom().contains(device@) ==> final(self).servers() == old(
                self,
            ).servers(),
            !old(self).servers().dom().contains(device@) ==> exists|w: W|
                make.ensures((), w) && final(self).servers() == old(self).servers().insert(
                    device@,
                    w,
                ),
    {
        match self.find_server(device) {
            Some(_) => {},
            None => {
                let worker = make();
                let server = Server { device: device.copy(), worker };
                proof {
                    lemma_push(
                        self.servers@,
                        |s: Server<W>| server_device(s),
                        |s: Server<W>| server_worker(s),
                        server,
                    );
                }
                self.servers.push(server);
                assert(self.servers() == old(self).servers().insert(device@, worker));
            },
        }
    }

    /// Binds the device `id` to `destination`, registering the server of
    /// the destination with a worker from `make` unless it is registered
    /// already.
    pub fn bind<F: FnOnce() -> W>(&mut self, id: String, destination: Destination, make: F)
        requires
            old(self).wf(),
            make.requires(()),
        ensures
            final(self).wf(),
            final(self).devices() == old(self).devices().insert(id@, destination@),
            old(self).servers().dom().contains(destination.address@) ==> final(self).servers()
                == old(self).servers(),
            !old(self).servers().dom().contains(destination.address@) ==> exists|w: W|
                make.ensures((), w) && final(self).servers() == old(self).servers().insert(
                    destination.address@,
                    w,
                ),
    {
        self.get_server(&destination.address, make);
        let ghost servers = self.servers();
        let ghost key = id@;
        let ghost value = destination@;
        let binding = Binding { id, destination };
        match self.find_binding(binding.id.as_str()) {
            Some(i) => {
                proof {
                    lemma_update(
                        self.bindings@,
                        |b: Binding| binding_id(b),
                        |b: Binding| binding_destination(b),
                        i as int,
                        binding,
                    );
                }
                self.bindings.set(i, binding);
            },
            None => {
                proof {
                    lemma_push(
                        self.bindings@,
                        |b: Binding| binding_id(b),
                        |b: Binding| binding_destination(b),
                        binding,
                    );
                }
                self.bindings.push(binding);
            },
        }
        assert(self.devices() == old(self).devices().insert(key, value));
        assert(self.servers() == servers);
    }

    /// The destination that the device `id` is bound to and the worker of
    /// its server.
    pub fn get_device(&self, id: &str) -> (r: Option<(Destination, &W)>)
        requires
            self.wf(),
        ensures
            match r {
                Some((destination, worker)) => {
                    &&& self.devices().dom().contains(id@)
                    &&& destination@ == self.devices()[id@]
                    &&& *worker == self.servers()[destination.address@]
                },
                None => !self.devices().dom().contains(id@),
            },
    {
        match self.find_binding(id) {
            Some(i) => {
                proof {
                    self.lemma_binding_at(i as int);
                }
                let destination = self.bindings[i].destination.copy();
                match self.server(&destination.address) {
                    Some(worker) => Some((destination, worker)),
                    None => None,
                }
            },
            None => None,
        }
    }

    fn remove_server(&mut self, device: &Device) -> (r: Option<W>)
        requires
            old(self).wf(),
            !address_in_use(old(self).devices(), device@),
        ensures
            final(self).wf(),
            final(self).devices() == old(self).devices(),
            final(self).servers() == old(self).servers().remove(device@),
            match r {
                Some(w) => old(self).servers().dom().contains(device@) && w == old(
                    self,
                ).servers()[device@],
                None => !old(self).servers().dom().contains(device@),
            },
    {
        match self.find_server(device) {
            Some(i) => {
                proof {
                    self.lemma_server_at(i as int);
                    lemma_remove(
                        self.servers@,
                        |s: Server<W>| server_device(s),
                        |s: Server<W>| server_worker(s),
                        i as int,
                    );
                }
                let server = self.servers.remove(i);
                proof {
                    assert forall|k: Seq<char>| #[trigger]
                        self.devices().dom().contains(k) implies self.servers().dom().contains(
                        self.devices()[k].address,
                    ) by {
                        assert(old(self).devices().dom().contains(k));
                    }
                }
                Some(server.worker)
            },
            None => None,
        }
    }

    /// Stops the device `id`: its binding goes, and so does its server when
    /// no other device is on it; the worker of a server that goes is handed
    /// back.
    pub fn stop_from_id(&mut self, id: &str) -> (r: Option<W>)
        requires
            old(self).wf(),
        ensures
            final(self).wf(),
            final(self).devices() == old(self).devices().remove(id@),
            !old(self).devices().dom().contains(id@) ==> final(self).servers() == old(
                self,
            ).servers() && r is None,
            old(self).devices().dom().contains(id@) ==> {
                let a = old(self).devices()[id@].address;
                if address_in_use(final(self).devices(), a) {
                    final(self).servers() == old(self).servers() && r is None
                } else {
                    final(self).servers() == old(self).servers().remove(a) && r == Some(
                        old(self).servers()[a],
                    )
                }
            },
    {
        match self.find_binding(id) {
            Some(i) => {
                proof {
                    self.lemma_binding_at(i as int);
                    lemma_remove(
                        self.bindings@,
                        |b: Binding| binding_id(b),
                        |b: Binding| binding_destination(b),
                        i as int,
                    );
                }
                let removed = self.bindings.remove(i);
                proof {
                    assert forall|k: Seq<char>| #[trigger]
                        self.devices().dom().contains(k) implies self.servers().dom().contains(
                        self.devices()[k].address,
                    ) by {
                        assert(old(self).devices().dom().contains(k));
                    }
                }
                if self.in_use(&removed.destination.address) {
                    None
                } else {
                    self.remove_server(&removed.destination.address)
                }
            },
            None => {
                assert(old(self).devices().remove(id@) =~= old(self).devices());
                None
            },
        }
    }

    /// Stops the server `device`: every device on it is unbound and the
    /// server goes; its worker is handed back when it was registered.
    pub fn stop_from_address(&mut self, device: &Device) -> (r: Option<W>)
        requires
            old(self).wf(),
        ensures
            final(self).wf(),
            final(self).devices() == without_address(old(self).devices(), device@),
            final(self).servers() == old(self).servers().remove(device@),
            match r {
                Some(w) => old(self).servers().dom().contains(device@) && w == old(
                    self,
                ).servers()[device@],
                None => !old(self).servers().dom().contains(device@),
            },
    {
        let ghost start = self.devices();
        let mut i: usize = 0;
        while i < self.bindings.len()
            invariant
                self.wf(),
                self.servers() == old(self).servers(),
                i <= self.bindings@.len(),
                forall|j: int|
                    0 <= j < i ==> (#[trigger] self.bindings@[j]).destination.address@
                        != device@,
                forall|k: Seq<char>| #[trigger]
                    self.devices().dom().contains(k) ==> start.dom().contains(k)
                        && self.devices()[k] == start[k],
                forall|k: Seq<char>| #[trigger]
                    start.dom().contains(k) && start[k].address != device@ ==> self.devices().dom().contains(
                        k,
                    ),
            decreases self.bindings@.len() - i,
        {
            if self.bindings[i].destination.address.same(device) {
                proof {
                    self.lemma_binding_at(i as int);
                    lemma_remove(
                        self.bindings@,
                        |b: Binding| binding_id(b),
                        |b: Binding| binding_destination(b),
                        i as int,
                    );
                }
                let ghost before = self.devices();
                let ghost before_seq = self.bindings@;
                let _removed = self.bindings.remove(i);
                proof {
                    assert forall|k: Seq<char>| #[trigger]
                        self.devices().dom().contains(k) implies self.servers().dom().contains(
                        self.devices()[k].address,
                    ) by {
                        assert(before.dom().contains(k));
                    }
                    assert forall|j: int|
                        0 <= j < i implies (#[trigger] self.bindings@[j]).destination.address@
                        != device@ by {
                        assert(self.bindings@[j] == before_seq[j]);
                    }
                }
            } else {
                i = i + 1;
            }
        }
        proof {
            assert forall|k: Seq<char>| #[trigger]
                self.devices().dom().contains(k) implies self.devices()[k].address != device@ by {
                let j = key_index(self.bindings@, |b: Binding| binding_id(b), k);
                assert(self.bindings@[j].destination.address@ != device@);
            }
            assert(self.devices() =~= without_address(start, device@));
        }
        self.remove_server(device)
    }

    /// Stops the destination `destination`: every device bound to it is
    /// unbound, and its server goes when some device was unbound and no
    /// device is left on it; the worker of a server that goes is handed
    /// back.
    pub fn stop_from_destination(&mut self, destination: &Destination) -> (r: Option<W>)
        requires
            old(self).wf(),
        ensures
            final(self).wf(),
            final(self).devices() == without_destination(old(self).devices(), destination@),
            ({
                let a = destination.address@;
                let unbound = final(self).devices() != old(self).devices();
                if unbound && !address_in_use(final(self).devices(), a) {
                    final(self).servers() == old(self).servers().remove(a) && r == Some(
                        old(self).servers()[a],
                    )
                } else {
                    final(self).servers() == old(self).servers() && r is None
                }
            }),
    {
        let ghost start = self.devices();
        let mut removed_any = false;
        let mut i: usize = 0;
        while i < self.bindings.len()
            invariant
                self.wf(),
                self.servers() == old(self).servers(),
                i <= self.bindings@.len(),
                forall|j: int|
                    0 <= j < i ==> (#[trigger] self.bindings@[j]).destination@ != destination@,
                forall|k: Seq<char>| #[trigger]
                    self.devices().dom().contains(k) ==> start.dom().contains(k)
                        && self.devices()[k] == start[k],
                forall|k: Seq<char>| #[trigger]
                    start.dom().contains(k) && start[k] != destination@ ==> self.devices().dom().contains(
                        k,
                    ),
                removed_any ==> self.servers().dom().contains(destination@.address),
                removed_any <==> exists|k: Seq<char>|
                    #[trigger] start.dom().contains(k) && !self.devices().dom().contains(k),
            decreases self.bindings@.len() - i,
        {
            if self.bindings[i].destination.same(destination) {
                proof {
                    self.lemma_binding_at(i as int);
                    lemma_remove(
                        self.bindings@,
                        |b: Binding| binding_id(b),
                        |b: Binding| binding_destination(b),
                        i as int,
                    );
                }
                let ghost before = self.devices();
                let ghost before_seq = self.bindings@;
                let ghost gone = self.bindings@[i as int].id@;
                let _removed = self.bindings.remove(i);
                removed_any = true;
                proof {
                    assert forall|j: int|
                        0 <= j < i implies (#[trigger] self.bindings@[j]).destination@
                        != destination@ by {
                        assert(self.bindings@[j] == before_seq[j]);
                    }
                    assert forall|k: Seq<char>| #[trigger]
                        self.devices().dom().contains(k) implies self.servers().dom().contains(
                        self.devices()[k].address,
                    ) by {
                        assert(before.dom().contains(k));
                    }
                    assert(start.dom().contains(gone) && !self.devices().dom().contains(gone));
                }
            } else {
                i = i + 1;
            }
        }
        proof {
            assert forall|k: Seq<char>| #[trigger]
                self.devices().dom().contains(k) implies self.devices()[k] != destination@ by {
                let j = key_index(self.bindings@, |b: Binding| binding_id(b), k);
                assert(self.bindings@[j].destination@ != destination@);
            }
            assert(self.devices() =~= without_destination(start, destination@));
            if self.devices() != start {
                if !removed_any {
                    assert forall|k: Seq<char>| #[trigger]
                        start.dom().contains(k) implies self.devices().dom().contains(k) by {}
                    assert(self.devices() =~= start);
                }
            }
            if removed_any {
                let k = choose|k: Seq<char>|
                    #[trigger] start.dom().contains(k) && !self.devices().dom().contains(k);
                assert(self.devices() != start);
            }
        }
        if removed_any && !self.in_use(&destination.address) {
            self.remove_server(&destination.address)
        } else {
            None
        }
    }
}

/// Law: in every registry, the server of each bound device is registered,
/// so a device found by id always comes with a worker.
pub proof fn law_bound_devices_have_servers<W>(r: &Registry<W>)
    requires
        r.wf(),
    ensures
        forall|k: Seq<char>| #[trigger]
            r.devices().dom().contains(k) ==> r.servers().dom().contains(r.devices()[k].address),
{
}

/// Law: after binding `id` to `d`, looking `id` up gives `d`, and every
/// other binding is as it was.
pub proof fn law_lookup_after_bind(
    before: Map<Seq<char>, DestinationView>,
    after: Map<Seq<char>, DestinationView>,
    id: Seq<char>,
    d: DestinationView,
)
    requires
        after == before.insert(id, d),
    ensures
        after.dom().contains(id),
        after[id] == d,
        forall|k: Seq<char>| k != id ==> (#[trigger] after.dom().contains(k) <==> before.dom().contains(k)),
        forall|k: Seq<char>| k != id && #[trigger] before.dom().contains(k) ==> after[k] == before[k],
{
}

/// Law: stopping a device that was just bound leaves the bindings as if it
/// had never been bound, and the device is not found any more.
pub proof fn law_stop_undoes_bind(
    before: Map<Seq<char>, DestinationView>,
    id: Seq<char>,
    d: DestinationView,
)
    ensures
        !before.insert(id, d).remove(id).dom().contains(id),
        before.insert(id, d).remove(id) =~= before.remove(id),
        !before.dom().contains(id) ==> before.insert(id, d).remove(id) =~= before,
{
}

/// Law: after a server is stopped, no device is bound to it and it has no
/// worker; devices on other servers keep their bindings.
pub proof fn law_stopped_server_is_gone<W>(
    before: Map<Seq<char>, DestinationView>,
    servers: Map<DeviceView, W>,
    a: DeviceView,
)
    ensures
        !address_in_use(without_address(before, a), a),
        !servers.remove(a).dom().contains(a),
        forall|k: Seq<char>| #[trigger]
            before.dom().contains(k) && before[k].address != a ==> without_address(before, a).dom().contains(k)
                && without_address(before, a)[k] == before[k],
{
}

/// Law: after a destination is stopped, no device is bound to it, and
/// devices bound to other destinations keep their bindings.
pub proof fn law_stopped_destination_is_gone(
    before: Map<Seq<char>, DestinationView>,
    d: DestinationView,
)
    ensures
        forall|k: Seq<char>| #[trigger]
            without_destination(before, d).dom().contains(k) ==> without_destination(before, d)[k]
                != d,
        forall|k: Seq<char>| #[trigger]
            before.dom().contains(k) && before[k] != d ==> without_destination(before, d).dom().contains(k)
                && without_destination(before, d)[k] == before[k],
{
}

} // verus!
