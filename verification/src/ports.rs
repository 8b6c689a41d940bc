//! The portal port allocator: a free pool and an assignment map that at every
//! quiescent moment partition the configured port range.

use vstd::prelude::*;

use crate::error::ServerError;
use crate::strutil::str_eq;

verus! {

/// Allocates host ports for sandbox portals. Keys are `namespace/name`
/// strings; every port of `[port_min, port_max]` is at all times either in
/// the free pool or assigned to exactly one key.
pub struct PortAllocator {
    port_min: u16,
    port_max: u16,
    free: Vec<u16>,
    assigned: Vec<(String, u16)>,
}

impl PortAllocator {
    /// Lowest port this allocator hands out.
    pub closed spec fn spec_port_min(self) -> u16 {
        self.port_min
    }

    /// Highest port this allocator hands out.
    pub closed spec fn spec_port_max(self) -> u16 {
        self.port_max
    }

    /// Number of assignments held.
    pub closed spec fn num_assigned(self) -> nat {
        self.assigned@.len()
    }

    /// Number of ports in the free pool.
    pub closed spec fn num_free(self) -> nat {
        self.free@.len()
    }

    /// The key of the assignment at index `i`.
    pub closed spec fn key_at(self, i: int) -> Seq<char> {
        self.assigned@[i].0@
    }

    /// The port of the assignment at index `i`.
    pub closed spec fn port_at(self, i: int) -> u16 {
        self.assigned@[i].1
    }

    /// The port in the free pool at index `i`.
    pub closed spec fn free_at(self, i: int) -> u16 {
        self.free@[i]
    }

    /// Whether some assignment holds `key`.
    pub open spec fn has_key(self, key: Seq<char>) -> bool {
        exists|i: int| 0 <= i < self.num_assigned() && self.key_at(i) == key
    }

    /// Whether `p` is in the free pool.
    pub open spec fn in_free(self, p: u16) -> bool {
        exists|i: int| 0 <= i < self.num_free() && self.free_at(i) == p
    }

    /// Whether `p` is assigned to some key.
    pub open spec fn port_assigned(self, p: u16) -> bool {
        exists|i: int| 0 <= i < self.num_assigned() && self.port_at(i) == p
    }

    /// The port assigned to `key`, if any.
    pub open spec fn key_port(self, key: Seq<char>) -> Option<u16> {
        if self.has_key(key) {
            let i = choose|i: int| 0 <= i < self.num_assigned() && self.key_at(i) == key;
            Some(self.port_at(i))
        } else {
            None
        }
    }

    /// Well-formedness: keys unique, ports unique, free pool duplicate-free,
    /// free pool and assigned ports disjoint, and together they are exactly
    /// the range `[port_min, port_max]`.
    pub open spec fn wf(self) -> bool {
        &&& self.spec_port_min() <= self.spec_port_max()
        &&& forall|i: int, j: int|
            0 <= i < self.num_assigned() && 0 <= j < self.num_assigned() && i != j
                ==> self.key_at(i) != self.key_at(j)
        &&& forall|i: int, j: int|
            0 <= i < self.num_assigned() && 0 <= j < self.num_assigned() && i != j
                ==> self.port_at(i) != self.port_at(j)
        &&& forall|i: int, j: int|
            0 <= i < self.num_free() && 0 <= j < self.num_free() && i != j
                ==> self.free_at(i) != self.free_at(j)
        &&& forall|i: int, j: int|
            0 <= i < self.num_free() && 0 <= j < self.num_assigned()
                ==> self.free_at(i) != self.port_at(j)
        &&& forall|p: u16|
            (self.spec_port_min() <= p && p <= self.spec_port_max())
                == (#[trigger] self.in_free(p) || self.port_assigned(p))
    }

    /// With unique keys, any index holding `key` determines `key_port`.
    pub proof fn lemma_key_port_at(self, i: int)
        requires
            forall|a: int, b: int|
                0 <= a < self.num_assigned() && 0 <= b < self.num_assigned() && a != b
                    ==> self.key_at(a) != self.key_at(b),
            0 <= i < self.num_assigned(),
        ensures
            self.key_port(self.key_at(i)) == Some(self.port_at(i)),
    {
        assert(self.has_key(self.key_at(i)));
        let j = choose|j: int|
            0 <= j < self.num_assigned() && self.key_at(j) == self.key_at(i);
        assert(j == i);
    }

    /// A fresh allocator whose free pool is the whole range and which holds
    /// no assignments.
    pub fn new(port_min: u16, port_max: u16) -> (r: PortAllocator)
        requires
            port_min <= port_max,
        ensures
            r.wf(),
            r.spec_port_min() == port_min,
            r.spec_port_max() == port_max,
            r.num_assigned() == 0,
            r.num_free() == port_max - port_min + 1,
            forall|p: u16| port_min <= p && p <= port_max ==> r.in_free(p),
    {
        let mut free: Vec<u16> = Vec::new();
        let mut p: u32 = port_min as u32;
        while p <= port_max as u32
            invariant
                port_min as u32 <= p <= port_max as u32 + 1,
                free@.len() == p - port_min as u32,
                forall|i: int| 0 <= i < free@.len() ==> free@[i] == port_min + i,
            decreases port_max as u32 + 1 - p,
        {
            free.push((p as u16));
            p = p + 1;
        }
        let r = PortAllocator { port_min, port_max, free, assigned: Vec::new() };
        proof {
            assert forall|q: u16|
                port_min <= q && q <= port_max implies #[trigger] r.in_free(q) by {
                assert(r.free_at(q - port_min) == q);
                assert(0 <= (q - port_min) < r.num_free());
            }
        }
        r
    }

    /// Index of the assignment holding `key`, if any.
    fn find_key(&self, key: &str) -> (r: Option<usize>)
        ensures
            match r {
                Some(i) => 0 <= i < self.num_assigned() && self.key_at(i as int) == key@,
                None => !self.has_key(key@),
            },
    {
        let n = self.assigned.len();
        let mut j: usize = 0;
        while j < n
            invariant
                j <= n,
                n == self.num_assigned(),
                forall|k: int| 0 <= k < j ==> self.key_at(k) != key@,
            decreases n - j,
        {
            if str_eq(self.assigned[j].0.as_str(), key) {
                return Some(j);
            }
            j = j + 1;
        }
        None
    }

    /// The port currently assigned to `key`, if any.
    pub fn get(&self, key: &str) -> (r: Option<u16>)
        requires
            self.wf(),
        ensures
            r == self.key_port(key@),
    {
        match self.find_key(key) {
            Some(i) => {
                proof {
                    self.lemma_key_port_at(i as int);
                }
                Some(self.assigned[i].1)
            }
            None => None,
        }
    }

    /// Assigns a port to `key`: returns the existing port if `key` is already
    /// assigned, otherwise takes one from the free pool; fails exactly when
    /// `key` is unassigned and the free pool is empty.
    pub fn assign(&mut self, key: &str) -> (r: Result<u16, ServerError>)
        requires
            old(self).wf(),
        ensures
            final(self).wf(),
            final(self).spec_port_min() == old(self).spec_port_min(),
            final(self).spec_port_max() == old(self).spec_port_max(),
            old(self).has_key(key@) ==> {
                &&& *final(self) == *old(self)
                &&& r is Ok
                &&& Some(r->Ok_0) == old(self).key_port(key@)
            },
            !old(self).has_key(key@) && old(self).num_free() > 0 ==> {
                &&& r is Ok
                &&& r->Ok_0 == old(self).free_at(old(self).num_free() - 1)
                &&& final(self).num_free() == old(self).num_free() - 1
                &&& forall|i: int| 0 <= i < final(self).num_free()
                    ==> final(self).free_at(i) == old(self).free_at(i)
                &&& final(self).num_assigned() == old(self).num_assigned() + 1
                &&& forall|i: int| 0 <= i < old(self).num_assigned()
                    ==> final(self).key_at(i) == old(self).key_at(i)
                        && final(self).port_at(i) == old(self).port_at(i)
                &&& final(self).key_at(old(self).num_assigned() as int) == key@
                &&& final(self).port_at(old(self).num_assigned() as int)
                    == old(self).free_at(old(self).num_free() - 1)
            },
            !old(self).has_key(key@) && old(self).num_free() == 0 ==> {
                &&& *final(self) == *old(self)
                &&& r is Err
                &&& r->Err_0 is ResourceExhausted
            },
            r is Ok ==> final(self).key_port(key@) == Some(r->Ok_0),
    {
        match self.find_key(key) {
            Some(i) => {
                proof {
                    self.lemma_key_port_at(i as int);
                }
                Ok(self.assigned[i].1)
            }
            None => {
                if self.free.len() == 0 {
                    return Err(ServerError::ResourceExhausted(
                        "no free portal port in the configured range".to_owned(),
                    ));
                }
                match self.free.pop() {
                    Some(p) => {
                        self.assigned.push((key.to_owned(), p));
                        proof {
                            let newi = self.num_assigned() - 1;
                            assert(self.key_at(newi) == key@);
                            assert(self.port_at(newi) == p);
                            assert(old(self).free_at(old(self).num_free() - 1) == p);
                            assert(forall|j: int| 0 <= j < newi
                                ==> self.key_at(j) == old(self).key_at(j)
                                    && self.port_at(j) == old(self).port_at(j));
                            assert(self.num_free() == old(self).num_free() - 1);
                            assert(forall|j: int| 0 <= j < self.num_free()
                                ==> self.free_at(j) == old(self).free_at(j));
                            assert forall|a: int, b: int|
                                0 <= a < self.num_free() && 0 <= b < self.num_free()
                                    && a != b implies self.free_at(a) != self.free_at(b) by {
                                assert(old(self).free_at(a) != old(self).free_at(b));
                            }
                            assert forall|a: int, b: int|
                                0 <= a < self.num_assigned() && 0 <= b < self.num_assigned()
                                    && a != b implies self.key_at(a) != self.key_at(b) by {
                                if a == newi {
                                    assert(self.key_at(b) == old(self).key_at(b));
                                    assert(old(self).key_at(b) == key@
                                        ==> old(self).has_key(key@));
                                } else if b == newi {
                                    assert(self.key_at(a) == old(self).key_at(a));
                                    assert(old(self).key_at(a) == key@
                                        ==> old(self).has_key(key@));
                                }
                            }
                            assert forall|a: int, b: int|
                                0 <= a < self.num_assigned() && 0 <= b < self.num_assigned()
                                    && a != b implies self.port_at(a) != self.port_at(b) by {
                                if a == newi {
                                    assert(old(self).free_at(old(self).num_free() - 1)
                                        != old(self).port_at(b));
                                } else if b == newi {
                                    assert(old(self).free_at(old(self).num_free() - 1)
                                        != old(self).port_at(a));
                                }
                            }
                            assert forall|a: int, b: int|
                                0 <= a < self.num_free() && 0 <= b < self.num_assigned()
                                    implies self.free_at(a) != self.port_at(b) by {
                                assert(self.free_at(a) == old(self).free_at(a));
                                if b == newi {
                                    assert(old(self).free_at(a)
                                        != old(self).free_at(old(self).num_free() - 1));
                                } else {
                                    assert(old(self).free_at(a) != old(self).port_at(b));
                                }
                            }
                            assert forall|q: u16|
                                (self.spec_port_min() <= q && q <= self.spec_port_max())
                                    == (#[trigger] self.in_free(q) || self.port_assigned(q)) by {
                                if old(self).in_free(q) {
                                    let fi = choose|fi: int|
                                        0 <= fi < old(self).num_free()
                                            && old(self).free_at(fi) == q;
                                    if fi < old(self).num_free() - 1 {
                                        assert(self.free_at(fi) == q);
                                    } else {
                                        assert(q == p);
                                        assert(self.port_assigned(q));
                                    }
                                }
                                if self.in_free(q) {
                                    let fi = choose|fi: int|
                                        0 <= fi < self.num_free() && self.free_at(fi) == q;
                                    assert(old(self).free_at(fi) == q);
                                    assert(old(self).in_free(q));
                                }
                                if self.port_assigned(q) {
                                    let ai = choose|ai: int|
                                        0 <= ai < self.num_assigned()
                                            && self.port_at(ai) == q;
                                    if ai < self.num_assigned() - 1 {
                                        assert(old(self).port_at(ai) == q);
                                    } else {
                                        assert(q == p);
                                        assert(old(self).free_at(old(self).num_free() - 1) == p);
                                        assert(old(self).in_free(q));
                                    }
                                }
                                if old(self).port_assigned(q) {
                                    let ai = choose|ai: int|
                                        0 <= ai < old(self).num_assigned()
                                            && old(self).port_at(ai) == q;
                                    assert(self.port_at(ai) == q);
                                }
                            }
                            self.lemma_key_port_at(newi);
                        }
                        Ok(p)
                    }
                    None => {
                        proof {
                            assert(false);
                        }
                        Err(ServerError::Internal("the free pool was checked non-empty".to_owned()))
                    }
                }
            }
        }
    }

    /// Releases the port assigned to `key`, returning it to the free pool.
    /// Releasing an unassigned key changes nothing; this never fails.
    pub fn release(&mut self, key: &str)
        requires
            old(self).wf(),
        ensures
            final(self).wf(),
            final(self).spec_port_min() == old(self).spec_port_min(),
            final(self).spec_port_max() == old(self).spec_port_max(),
            !old(self).has_key(key@) ==> *final(self) == *old(self),
            !final(self).has_key(key@),
            old(self).has_key(key@) ==> {
                &&& exists|i: int|
                    {
                        &&& 0 <= i < old(self).num_assigned()
                        &&& old(self).key_at(i) == key@
                        &&& final(self).num_assigned() == old(self).num_assigned() - 1
                        &&& forall|j: int| 0 <= j < i
                            ==> final(self).key_at(j) == old(self).key_at(j)
                                && final(self).port_at(j) == old(self).port_at(j)
                        &&& forall|j: int| i <= j < final(self).num_assigned()
                            ==> final(self).key_at(j) == old(self).key_at(j + 1)
                                && final(self).port_at(j) == old(self).port_at(j + 1)
                        &&& final(self).num_free() == old(self).num_free() + 1
                        &&& forall|j: int| 0 <= j < old(self).num_free()
                            ==> final(self).free_at(j) == old(self).free_at(j)
                        &&& final(self).free_at(old(self).num_free() as int)
                            == old(self).port_at(i)
                    }
                &&& final(self).in_free(old(self).key_port(key@)->0)
            },
            forall|k: Seq<char>| k != key@
                ==> final(self).key_port(k) == old(self).key_port(k),
    {
        match self.find_key(key) {
            Some(i) => {
                let (_k, p) = self.assigned.remove(i);
                self.free.push(p);
                proof {
                    assert(forall|j: int| 0 <= j < i
                        ==> self.key_at(j) == old(self).key_at(j)
                            && self.port_at(j) == old(self).port_at(j));
                    assert(forall|j: int| i <= j < self.num_assigned()
                        ==> self.key_at(j) == old(self).key_at(j + 1)
                            && self.port_at(j) == old(self).port_at(j + 1));
                    assert(forall|j: int| 0 <= j < old(self).num_free()
                        ==> self.free_at(j) == old(self).free_at(j));
                    assert(self.free_at(old(self).num_free() as int)
                        == old(self).port_at(i as int));
                    assert forall|a: int, b: int|
                        0 <= a < self.num_assigned() && 0 <= b < self.num_assigned()
                            && a != b implies self.key_at(a) != self.key_at(b)
                            && self.port_at(a) != self.port_at(b) by {
                        let a0: int = if a < i { a } else { a + 1 };
                        let b0: int = if b < i { b } else { b + 1 };
                        assert(self.key_at(a) == old(self).key_at(a0));
                        assert(self.key_at(b) == old(self).key_at(b0));
                        assert(self.port_at(a) == old(self).port_at(a0));
                        assert(self.port_at(b) == old(self).port_at(b0));
                    }
                    assert forall|a: int, b: int|
                        0 <= a < self.num_free() && 0 <= b < self.num_free()
                            && a != b implies self.free_at(a) != self.free_at(b) by {
                        if a < old(self).num_free() && b < old(self).num_free() {
                        } else if a < old(self).num_free() {
                            assert(self.free_at(b) == old(self).port_at(i as int));
                            assert(old(self).free_at(a) != old(self).port_at(i as int));
                        } else {
                            assert(self.free_at(a) == old(self).port_at(i as int));
                            assert(old(self).free_at(b) != old(self).port_at(i as int));
                        }
                    }
                    assert forall|a: int, b: int|
                        0 <= a < self.num_free() && 0 <= b < self.num_assigned()
                            implies self.free_at(a) != self.port_at(b) by {
                        let b0: int = if b < i { b } else { b + 1 };
                        assert(self.port_at(b) == old(self).port_at(b0));
                        if a < old(self).num_free() {
                            assert(old(self).free_at(a) != old(self).port_at(b0));
                        } else {
                            assert(self.free_at(a) == old(self).port_at(i as int));
                            assert(old(self).port_at(i as int) != old(self).port_at(b0));
                        }
                    }
                    assert forall|q: u16|
                        (self.spec_port_min() <= q && q <= self.spec_port_max())
                            == (#[trigger] self.in_free(q) || self.port_assigned(q)) by {
                        if old(self).in_free(q) {
                            let fi = choose|fi: int|
                                0 <= fi < old(self).num_free() && old(self).free_at(fi) == q;
                            assert(self.free_at(fi) == q);
                        }
                        if old(self).port_assigned(q) {
                            let ai = choose|ai: int|
                                0 <= ai < old(self).num_assigned()
                                    && old(self).port_at(ai) == q;
                            if ai == i {
                                assert(self.free_at(self.num_free() - 1) == q);
                            } else if ai < i {
                                assert(self.port_at(ai) == q);
                            } else {
                                assert(self.port_at(ai - 1) == q);
                            }
                        }
                        if self.in_free(q) {
                            let fi = choose|fi: int|
                                0 <= fi < self.num_free() && self.free_at(fi) == q;
                            if fi < self.num_free() - 1 {
                                assert(old(self).in_free(q));
                            } else {
                                assert(q == old(self).port_at(i as int));
                                assert(old(self).port_assigned(q));
                            }
                        }
                        if self.port_assigned(q) {
                            let ai = choose|ai: int|
                                0 <= ai < self.num_assigned() && self.port_at(ai) == q;
                            if ai < i {
                                assert(old(self).port_at(ai) == q);
                            } else {
                                assert(old(self).port_at(ai + 1) == q);
                            }
                        }
                    }
                    assert(!self.has_key(key@)) by {
                        if self.has_key(key@) {
                            let j = choose|j: int|
                                0 <= j < self.num_assigned() && self.key_at(j) == key@;
                            if j < i {
                                assert(old(self).key_at(j) == key@);
                                assert(j != i && old(self).key_at(i as int) == key@);
                            } else {
                                assert(old(self).key_at(j + 1) == key@);
                                assert(j + 1 != i && old(self).key_at(i as int) == key@);
                            }
                        }
                    }
                    old(self).lemma_key_port_at(i as int);
                    assert(self.in_free(old(self).port_at(i as int))) by {
                        assert(self.free_at(self.num_free() - 1)
                            == old(self).port_at(i as int));
                    }
                    assert forall|k: Seq<char>| k != key@
                        implies self.key_port(k) == old(self).key_port(k) by {
                        if old(self).has_key(k) {
                            let j = choose|j: int|
                                0 <= j < old(self).num_assigned()
                                    && old(self).key_at(j) == k;
                            old(self).lemma_key_port_at(j);
                            if j < i {
                                assert(self.key_at(j) == k && self.port_at(j)
                                    == old(self).port_at(j));
                                self.lemma_key_port_at(j);
                            } else {
                                assert(j != i);
                                assert(self.key_at(j - 1) == k && self.port_at(j - 1)
                                    == old(self).port_at(j));
                                self.lemma_key_port_at(j - 1);
                            }
                        } else {
                            assert(!self.has_key(k)) by {
                                if self.has_key(k) {
                                    let j = choose|j: int|
                                        0 <= j < self.num_assigned() && self.key_at(j) == k;
                                    if j < i {
                                        assert(old(self).key_at(j) == k);
                                    } else {
                                        assert(old(self).key_at(j + 1) == k);
                                    }
                                }
                            }
                        }
                    }
                }
            }
            None => {}
        }
    }
}

/// The port-pool partition law: in a well-formed allocator the free pool and
/// the assignment map are disjoint, and together they cover exactly the
/// configured range.
pub proof fn lemma_allocator_partition(a: PortAllocator)
    requires
        a.wf(),
    ensures
        forall|p: u16| !(#[trigger] a.in_free(p) && a.port_assigned(p)),
        forall|p: u16|
            (a.spec_port_min() <= p && p <= a.spec_port_max())
                == (#[trigger] a.in_free(p) || a.port_assigned(p)),
{
    assert forall|p: u16| !(#[trigger] a.in_free(p) && a.port_assigned(p)) by {
        if a.in_free(p) && a.port_assigned(p) {
            let i = choose|i: int| 0 <= i < a.num_free() && a.free_at(i) == p;
            let j = choose|j: int| 0 <= j < a.num_assigned() && a.port_at(j) == p;
            assert(a.free_at(i) != a.port_at(j));
        }
    }
}

} // verus!
