//! A task's virtual address space, modelled at page granularity: which virtual
//! pages are mapped, and with which permission bits.
use vstd::prelude::*;

use std::collections::HashMap;

verus! {

broadcast use vstd::std_specs::hash::group_hash_axioms;

/// Page readable.
pub const PERM_R: u8 = 2;
/// Page writable.
pub const PERM_W: u8 = 4;
/// Page executable.
pub const PERM_X: u8 = 8;
/// Page accessible from user mode.
pub const PERM_U: u8 = 16;

/// Address-space permission bits for syscall permission bits `port`
/// (bit 0 read, bit 1 write, bit 2 execute), always user-accessible.
pub open spec fn perm_of_port(port: nat) -> u8 {
    (2 * port + 16) as u8
}

/// Translates syscall permission bits into address-space permission bits.
pub fn permission_from_port(port: usize) -> (r: u8)
    requires
        port < 8,
    ensures
        r == perm_of_port(port as nat),
{
    (port as u8) * 2 + PERM_U
}

/// Some page of `[s, e)` is mapped in `m`.
pub open spec fn range_overlaps(m: Map<usize, u8>, s: nat, e: nat) -> bool {
    exists|v: usize| s <= v < e && #[trigger] m.contains_key(v)
}

/// Every page of `[s, e)` is mapped in `m`.
pub open spec fn range_fully_mapped(m: Map<usize, u8>, s: nat, e: nat) -> bool {
    forall|v: usize| s <= v < e ==> #[trigger] m.contains_key(v)
}

/// `m` with every page of `[s, e)` mapped with permission `p`.
pub open spec fn map_range(m: Map<usize, u8>, s: nat, e: nat, p: u8) -> Map<usize, u8> {
    Map::new(
        |v: usize| m.contains_key(v) || (s <= v < e),
        |v: usize| if s <= v < e { p } else { m[v] },
    )
}

/// `m` with every page of `[s, e)` unmapped.
pub open spec fn unmap_range(m: Map<usize, u8>, s: nat, e: nat) -> Map<usize, u8> {
    Map::new(|v: usize| m.contains_key(v) && !(s <= v < e), |v: usize| m[v])
}

/// Round trip: mapping a region of which no page is mapped leaves every page
/// of it mapped, so unmapping the same region then succeeds; and that unmapping
/// gives back exactly the address space from before, with no page of the
/// region left mapped.
pub proof fn lemma_map_unmap_round_trip(m: Map<usize, u8>, s: nat, e: nat, p: u8)
    requires
        !range_overlaps(m, s, e),
    ensures
        range_fully_mapped(map_range(m, s, e, p), s, e),
        unmap_range(map_range(m, s, e, p), s, e) == m,
        !range_overlaps(unmap_range(map_range(m, s, e, p), s, e), s, e),
{
    assert(unmap_range(map_range(m, s, e, p), s, e) =~= m);
}

/// Address space of one task: its page-table token and its mapped pages.
pub struct MemorySet {
    token: usize,
    pages: HashMap<usize, u8>,
}

impl View for MemorySet {
    type V = Map<usize, u8>;

    closed spec fn view(&self) -> Map<usize, u8> {
        self.pages@
    }
}

impl MemorySet {
    pub closed spec fn spec_token(&self) -> usize {
        self.token
    }

    /// An address space with page-table token `token` and no page mapped.
    pub fn new_bare(token: usize) -> (r: Self)
        ensures
            r@ == Map::<usize, u8>::empty(),
            r.spec_token() == token,
    {
        MemorySet { token, pages: HashMap::new() }
    }

    /// Token that selects this address space's page table.
    pub fn token(&self) -> (r: usize)
        ensures
            r == self.spec_token(),
    {
        self.token
    }

    /// Whether virtual page `vpn` is mapped.
    pub fn is_mapped(&self, vpn: usize) -> (r: bool)
        ensures
            r == self@.contains_key(vpn),
    {
        self.pages.contains_key(&vpn)
    }

    /// Permission bits of virtual page `vpn`, if it is mapped.
    pub fn permission(&self, vpn: usize) -> (r: Option<u8>)
        ensures
            r == (if self@.contains_key(vpn) { Some(self@[vpn]) } else { None::<u8> }),
    {
        match self.pages.get(&vpn) {
            Some(p) => Some(*p),
            None => None,
        }
    }

    /// Whether some page of `[start_vpn, end_vpn)` is mapped.
    pub fn range_overlaps(&self, start_vpn: usize, end_vpn: usize) -> (r: bool)
        ensures
            r == range_overlaps(self@, start_vpn as nat, end_vpn as nat),
    {
        let mut v = start_vpn;
        while v < end_vpn
            invariant
                start_vpn <= v,
                v <= end_vpn || v == start_vpn,
                forall|u: usize| start_vpn <= u < v ==> !self@.contains_key(u),
            decreases end_vpn - v,
        {
            if self.pages.contains_key(&v) {
                assert(self@.contains_key(v));
                return true;
            }
            v = v + 1;
        }
        false
    }

    /// Whether every page of `[start_vpn, end_vpn)` is mapped.
    pub fn range_fully_mapped(&self, start_vpn: usize, end_vpn: usize) -> (r: bool)
        ensures
            r == range_fully_mapped(self@, start_vpn as nat, end_vpn as nat),
    {
        let mut v = start_vpn;
        while v < end_vpn
            invariant
                start_vpn <= v,
                v <= end_vpn || v == start_vpn,
                forall|u: usize| start_vpn <= u < v ==> self@.contains_key(u),
            decreases end_vpn - v,
        {
            if !self.pages.contains_key(&v) {
                assert(!self@.contains_key(v));
                return false;
            }
            v = v + 1;
        }
        true
    }

    /// Maps every page of `[start_vpn, end_vpn)` with permission `perm`.
    pub fn insert_framed_area(&mut self, start_vpn: usize, end_vpn: usize, perm: u8)
        ensures
            final(self)@ == map_range(old(self)@, start_vpn as nat, end_vpn as nat, perm),
            final(self).spec_token() == old(self).spec_token(),
    {
        let ghost m0 = self@;
        let mut v = start_vpn;
        assert(self@ =~= map_range(m0, start_vpn as nat, v as nat, perm));
        while v < end_vpn
            invariant
                start_vpn <= v,
                v <= end_vpn || v == start_vpn,
                self.token == old(self).token,
                self@ == map_range(m0, start_vpn as nat, v as nat, perm),
            decreases end_vpn - v,
        {
            self.pages.insert(v, perm);
            assert(self@ =~= map_range(m0, start_vpn as nat, (v + 1) as nat, perm));
            v = v + 1;
        }
        assert(self@ =~= map_range(m0, start_vpn as nat, end_vpn as nat, perm));
    }

    /// Unmaps every page of `[start_vpn, end_vpn)`.
    pub fn remove_area(&mut self, start_vpn: usize, end_vpn: usize)
        ensures
            final(self)@ == unmap_range(old(self)@, start_vpn as nat, end_vpn as nat),
            final(self).spec_token() == old(self).spec_token(),
    {
        let ghost m0 = self@;
        let mut v = start_vpn;
        assert(self@ =~= unmap_range(m0, start_vpn as nat, v as nat));
        while v < end_vpn
            invariant
                start_vpn <= v,
                v <= end_vpn || v == start_vpn,
                self.token == old(self).token,
                self@ == unmap_range(m0, start_vpn as nat, v as nat),
            decreases end_vpn - v,
        {
            self.pages.remove(&v);
            assert(self@ =~= unmap_range(m0, start_vpn as nat, (v + 1) as nat));
            v = v + 1;
        }
        assert(self@ =~= unmap_range(m0, start_vpn as nat, end_vpn as nat));
    }
}

} // verus!
