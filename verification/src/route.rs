//! The route table: up to eight entries, longest prefix wins.

use vstd::prelude::*;

use crate::err::NetError;
use crate::ip::IpAddr;

verus! {

/// The fixed number of route slots.
pub const ROUTE_CAPACITY: usize = 8;

/// One routing entry: a destination network, its mask, an optional
/// gateway, and the name of the device to leave through.
#[derive(Debug, Clone, PartialEq, Eq)]
pub struct Route {
    pub dest: IpAddr,
    pub mask: IpAddr,
    pub gateway: Option<IpAddr>,
    pub dev: String,
}

/// Whether a route's network covers the destination.
pub open spec fn route_matches(r: Route, dst: IpAddr) -> bool {
    (dst.0 & r.mask.0) == (r.dest.0 & r.mask.0)
}

/// The low `bits` bits of `n` that are set, counted one halving at a
/// time.
pub open spec fn popcount_rec(n: int, bits: nat) -> int
    decreases bits,
{
    if bits == 0 {
        0
    } else {
        n % 2 + popcount_rec(n / 2, (bits - 1) as nat)
    }
}

/// The number of set bits of a 32-bit word: the prefix length of a mask.
pub open spec fn popcount(n: int) -> int {
    popcount_rec(n, 32)
}

/// A bit count is never negative and never exceeds the bits counted.
pub proof fn lemma_popcount_rec_bound(n: int, bits: nat)
    requires
        0 <= n,
    ensures
        0 <= popcount_rec(n, bits) <= bits,
    decreases bits,
{
    if bits > 0 {
        lemma_popcount_rec_bound(n / 2, (bits - 1) as nat);
    }
}

/// Count the set bits of a word.
pub fn popcount_exec(n: u32) -> (r: u32)
    ensures
        r == popcount(n as int),
        r <= 32,
{
    let mut v: u32 = n;
    let mut count: u32 = 0;
    let mut i: usize = 0;
    while i < 32
        invariant
            i <= 32,
            count <= i,
            v >= 0,
            count + popcount_rec(v as int, (32 - i) as nat) == popcount(n as int),
        decreases 32 - i,
    {
        proof {
            lemma_popcount_rec_bound(v as int, (32 - i) as nat);
        }
        count = count + v % 2;
        v = v / 2;
        i = i + 1;
    }
    count
}

/// The route table.
pub struct RouteTable {
    pub routes: Vec<Route>,
}

impl RouteTable {
    /// An empty table.
    pub fn new() -> (r: Self)
        ensures
            r.routes@.len() == 0,
    {
        RouteTable { routes: Vec::new() }
    }

    /// Add an entry; `StorageFull` when all slots are used.
    pub fn add_route(&mut self, route: Route) -> (r: Result<(), NetError>)
        ensures
            match r {
                Ok(()) => {
                    &&& old(self).routes@.len() < ROUTE_CAPACITY
                    &&& final(self).routes@ == old(self).routes@.push(route)
                },
                Err(e) => {
                    &&& e == NetError::StorageFull
                    &&& old(self).routes@.len() >= ROUTE_CAPACITY
                    &&& final(self).routes@ == old(self).routes@
                },
            },
    {
        if self.routes.len() >= ROUTE_CAPACITY {
            return Err(NetError::StorageFull);
        }
        self.routes.push(route);
        Ok(())
    }

    /// The matching entry with the greatest prefix length; among equals,
    /// the earliest added wins.
    pub fn lookup(&self, dst: IpAddr) -> (r: Option<&Route>)
        ensures
            match r {
                Some(rt) => exists|i: int|
                    {
                        &&& 0 <= i < self.routes@.len()
                        &&& *rt == self.routes@[i]
                        &&& route_matches(#[trigger] self.routes@[i], dst)
                        &&& forall|j: int|
                            0 <= j < self.routes@.len() && route_matches(
                                #[trigger] self.routes@[j],
                                dst,
                            ) ==> popcount(self.routes@[j].mask.0 as int) <= popcount(
                                self.routes@[i].mask.0 as int,
                            )
                        &&& forall|j: int|
                            0 <= j < i && route_matches(#[trigger] self.routes@[j], dst)
                                ==> popcount(self.routes@[j].mask.0 as int) < popcount(
                                self.routes@[i].mask.0 as int,
                            )
                    },
                None => forall|i: int|
                    0 <= i < self.routes@.len() ==> !route_matches(
                        #[trigger] self.routes@[i],
                        dst,
                    ),
            },
    {
        let n = self.routes.len();
        let mut best: Option<usize> = None;
        let mut best_len: u32 = 0;
        let mut i: usize = 0;
        while i < n
            invariant
                i <= n,
                n == self.routes@.len(),
                match best {
                    Some(b) => {
                        &&& b < i
                        &&& route_matches(self.routes@[b as int], dst)
                        &&& best_len == popcount(self.routes@[b as int].mask.0 as int)
                        &&& forall|j: int|
                            0 <= j < i && route_matches(#[trigger] self.routes@[j], dst)
                                ==> popcount(self.routes@[j].mask.0 as int) <= best_len
                        &&& forall|j: int|
                            0 <= j < b && route_matches(#[trigger] self.routes@[j], dst)
                                ==> popcount(self.routes@[j].mask.0 as int) < best_len
                    },
                    None => forall|j: int|
                        0 <= j < i ==> !route_matches(#[trigger] self.routes@[j], dst),
                },
            decreases n - i,
        {
            let rt = &self.routes[i];
            if (dst.0 & rt.mask.0) == (rt.dest.0 & rt.mask.0) {
                let len = popcount_exec(rt.mask.0);
                match best {
                    Some(_) => {
                        if len > best_len {
                            best = Some(i);
                            best_len = len;
                        }
                    },
                    None => {
                        best = Some(i);
                        best_len = len;
                    },
                }
            }
            i = i + 1;
        }
        match best {
            Some(b) => Some(&self.routes[b]),
            None => None,
        }
    }
}

} // verus!
