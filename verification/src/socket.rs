//! Generic socket slot table: dense small-integer handles into a
//! fixed-capacity table of optional slots, one table per protocol.

use vstd::prelude::*;
use vstd::pervasive::VecAdditionalExecFns;

use crate::err::NetError;

verus! {

/// A dense small-integer handle into a `SocketSet`.
#[derive(Debug, Clone, Copy, PartialEq, Eq, Structural)]
pub struct SocketHandle(pub usize);

impl SocketHandle {
    pub fn new(index: usize) -> (r: Self)
        ensures
            r.index_spec() == index,
    {
        Self(index)
    }

    /// The slot index this handle names.
    pub open spec fn index_spec(self) -> usize {
        self.0
    }

    pub fn index(&self) -> (r: usize)
        ensures
            r == self.index_spec(),
    {
        self.0
    }
}

/// A fixed-capacity table of optional slots; a slot is occupied while the
/// socket it holds is live, and freeing clears it.
pub struct SocketSet<T> {
    pub sockets: Vec<Option<T>>,
}

impl<T> View for SocketSet<T> {
    type V = Seq<Option<T>>;

    open spec fn view(&self) -> Seq<Option<T>> {
        self.sockets@
    }
}

impl<T> SocketSet<T> {
    /// The fixed number of slots.
    pub open spec fn capacity_spec(self) -> nat {
        self@.len()
    }

    pub fn capacity(&self) -> (r: usize)
        ensures
            r == self.capacity_spec(),
    {
        self.sockets.len()
    }

    /// A fresh table of `capacity` empty slots.
    pub fn new(capacity: usize) -> (r: Self)
        ensures
            r@.len() == capacity,
            forall|i: int| 0 <= i < capacity ==> r@[i] is None,
    {
        let mut sockets: Vec<Option<T>> = Vec::new();
        let mut i: usize = 0;
        while i < capacity
            invariant
                i <= capacity,
                sockets@.len() == i,
                forall|j: int| 0 <= j < i ==> sockets@[j] is None,
            decreases capacity - i,
        {
            sockets.push(None);
            i = i + 1;
        }
        Self { sockets }
    }

    /// Place `socket` in the lowest empty slot and hand back its handle;
    /// `NoSocketAvailable` when every slot is occupied.
    pub fn allocate(&mut self, socket: T) -> (r: Result<SocketHandle, NetError>)
        ensures
            match r {
                Ok(h) => {
                    &&& h.index_spec() < old(self)@.len()
                    &&& old(self)@[h.index_spec() as int] is None
                    &&& forall|j: int| 0 <= j < h.index_spec() ==> old(self)@[j] is Some
                    &&& final(self)@ == old(self)@.update(h.index_spec() as int, Some(socket))
                },
                Err(e) => {
                    &&& e == NetError::NoSocketAvailable
                    &&& forall|j: int| 0 <= j < old(self)@.len() ==> old(self)@[j] is Some
                    &&& final(self)@ == old(self)@
                },
            },
    {
        let n = self.sockets.len();
        let mut i: usize = 0;
        while i < n
            invariant
                i <= n,
                n == self.sockets@.len(),
                self.sockets@ == old(self)@,
                forall|j: int| 0 <= j < i ==> self.sockets@[j] is Some,
            decreases n - i,
        {
            if self.sockets[i].is_none() {
                self.sockets.set(i, Some(socket));
                return Ok(SocketHandle::new(i));
            }
            i = i + 1;
        }
        Err(NetError::NoSocketAvailable)
    }

    /// Clear the slot `handle` names.  `InvalidSocketIndex` when the index
    /// is out of range or the slot is already empty.
    pub fn free(&mut self, handle: SocketHandle) -> (r: Result<(), NetError>)
        ensures
            match r {
                Ok(()) => {
                    &&& handle.index_spec() < old(self)@.len()
                    &&& old(self)@[handle.index_spec() as int] is Some
                    &&& final(self)@ == old(self)@.update(handle.index_spec() as int, None)
                },
                Err(e) => {
                    &&& e == NetError::InvalidSocketIndex
                    &&& (handle.index_spec() >= old(self)@.len() || old(self)@[handle.index_spec() as int] is None)
                    &&& final(self)@ == old(self)@
                },
            },
    {
        let index = handle.index();
        if index >= self.sockets.len() {
            return Err(NetError::InvalidSocketIndex);
        }
        if self.sockets[index].is_none() {
            return Err(NetError::InvalidSocketIndex);
        }
        self.sockets.set(index, None);
        Ok(())
    }

    /// Borrow the socket in the slot `handle` names.
    pub fn get(&self, handle: SocketHandle) -> (r: Result<&T, NetError>)
        ensures
            match r {
                Ok(s) => {
                    &&& handle.index_spec() < self@.len()
                    &&& self@[handle.index_spec() as int] == Some(*s)
                },
                Err(e) => {
                    &&& (e == NetError::InvalidSocketIndex && handle.index_spec() >= self@.len())
                        || (e == NetError::InvalidSocketState && handle.index_spec() < self@.len()
                        && self@[handle.index_spec() as int] is None)
                },
            },
    {
        let index = handle.index();
        if index >= self.sockets.len() {
            return Err(NetError::InvalidSocketIndex);
        }
        match &self.sockets[index] {
            Some(s) => Ok(s),
            None => Err(NetError::InvalidSocketState),
        }
    }

    /// Mutably borrow the socket in the slot `handle` names.
    pub fn get_mut(&mut self, handle: SocketHandle) -> (r: Result<&mut T, NetError>)
        ensures
            match r {
                Ok(s) => {
                    &&& handle.index_spec() < old(self)@.len()
                    &&& old(self)@[handle.index_spec() as int] == Some(*s)
                    &&& final(self)@ == old(self)@.update(
                        handle.index_spec() as int,
                        Some(*final(s)),
                    )
                },
                Err(e) => {
                    &&& final(self)@ == old(self)@
                    &&& (e == NetError::InvalidSocketIndex && handle.index_spec() >= old(
                        self,
                    )@.len()) || (e == NetError::InvalidSocketState && handle.index_spec() < old(
                        self,
                    )@.len() && old(self)@[handle.index_spec() as int] is None)
                },
            },
    {
        let index = handle.index();
        if index >= self.sockets.len() {
            return Err(NetError::InvalidSocketIndex);
        }
        match &mut self.sockets[index] {
            Some(s) => Ok(s),
            None => Err(NetError::InvalidSocketState),
        }
    }

    /// The handles of the occupied slots, lowest first.
    pub fn iter(&self) -> (r: Vec<SocketHandle>)
        ensures
            forall|k: int|
                0 <= k < r@.len() ==> {
                    &&& (#[trigger] r@[k]).index_spec() < self@.len()
                    &&& self@[r@[k].index_spec() as int] is Some
                },
            forall|k1: int, k2: int|
                0 <= k1 < k2 < r@.len() ==> r@[k1].index_spec() < r@[k2].index_spec(),
            forall|i: int|
                0 <= i < self@.len() && self@[i] is Some ==> exists|k: int|
                    0 <= k < r@.len() && (#[trigger] r@[k]).index_spec() == i,
    {
        let mut r: Vec<SocketHandle> = Vec::new();
        let n = self.sockets.len();
        let mut i: usize = 0;
        while i < n
            invariant
                i <= n,
                n == self@.len(),
                forall|k: int|
                    0 <= k < r@.len() ==> {
                        &&& (#[trigger] r@[k]).index_spec() < i
                        &&& self@[r@[k].index_spec() as int] is Some
                    },
                forall|k1: int, k2: int|
                    0 <= k1 < k2 < r@.len() ==> r@[k1].index_spec() < r@[k2].index_spec(),
                forall|j: int|
                    0 <= j < i && self@[j] is Some ==> exists|k: int|
                        0 <= k < r@.len() && (#[trigger] r@[k]).index_spec() == j,
            decreases n - i,
        {
            let ghost r_old = r@;
            if self.sockets[i].is_some() {
                r.push(SocketHandle::new(i));
                proof {
                    assert forall|j: int| 0 <= j < i + 1 && self@[j] is Some implies exists|k: int|
                        0 <= k < r@.len() && (#[trigger] r@[k]).index_spec() == j by {
                        if j < i {
                            let k0 = choose|k: int|
                                0 <= k < r_old.len() && (#[trigger] r_old[k]).index_spec() == j;
                            assert(r@[k0].index_spec() == j);
                        } else {
                            assert(r@[r@.len() - 1].index_spec() == j);
                        }
                    }
                }
            }
            i = i + 1;
        }
        r
    }
}

/// Socket handles are unique until freed: an allocation fills its slot, so
/// any later allocation, before that slot is freed, lands elsewhere.
pub proof fn lemma_alloc_unique<T>(before: Seq<Option<T>>, after: Seq<Option<T>>, v: T, i: int, j: int)
    requires
        0 <= i < before.len(),
        before[i] is None,
        after == before.update(i, Some(v)),
        0 <= j < after.len(),
        after[j] is None,
    ensures
        j != i,
{
}

} // verus!
