//! The handle registry: identity -> handle -> permissions.
//!
//! Each guest module instance is named by an opaque numeric identity token
//! supplied by the execution engine. The registry maps an identity to the
//! handles issued to that instance, and each handle to the permissions
//! fixed at issuance time. Handle values come from one monotonically
//! increasing counter shared by all instances, so a freshly allocated
//! handle is not registered anywhere in the table. Handles are still
//! looked up only inside the calling identity's entry: a handle value
//! issued to one instance grants nothing under another identity.
//!
//! The table is stored as a sequence of entries; registration appends, and
//! lookup takes the latest matching row, so re-registering a handle
//! overwrites its permissions.

use vstd::prelude::*;

verus! {

/// What one handle may do, fixed when the handle is issued. There is no
/// update operation: changing a handle's rights means issuing a new handle.
#[derive(Debug)]
pub struct I2cPermissions {
    pub can_read: bool,
    pub can_write: bool,
    pub is_whitelisted: bool,
    /// Intended per-device-address allow-list, to pair with
    /// `is_whitelisted`; no enforcement path consults it yet.
    pub addresses: Vec<u16>,
}

/// One handle with its permissions, inside one instance's entry.
#[derive(Debug)]
pub struct HandleEntry {
    pub handle: u32,
    pub perms: I2cPermissions,
}

/// The handles issued to one module instance.
#[derive(Debug)]
pub struct InstanceEntry {
    pub identity: u64,
    pub handles: Vec<HandleEntry>,
}

/// The registry itself: the allocation counter and the per-instance table.
#[derive(Debug)]
pub struct I2cManager {
    /// The next handle value to hand out; starts at 1, so 0 is never a
    /// valid handle and stays free as a wire-level failure sentinel.
    pub next_handle: u32,
    pub instances: Vec<InstanceEntry>,
}

impl I2cManager {
    /// The permissions registered at `handle` in a run of rows; the latest
    /// registration wins.
    pub open spec fn find_handle(s: Seq<HandleEntry>, handle: u32) -> Option<I2cPermissions>
        decreases s.len(),
    {
        if s.len() == 0 {
            None
        } else if s.last().handle == handle {
            Some(s.last().perms)
        } else {
            Self::find_handle(s.drop_last(), handle)
        }
    }

    /// The entry belonging to `identity`; the latest matching row wins.
    pub open spec fn find_instance(s: Seq<InstanceEntry>, identity: u64) -> Option<InstanceEntry>
        decreases s.len(),
    {
        if s.len() == 0 {
            None
        } else if s.last().identity == identity {
            Some(s.last())
        } else {
            Self::find_instance(s.drop_last(), identity)
        }
    }

    /// The permissions that `identity` holds for `handle`: present if, and
    /// only if, `identity` has an entry containing `handle`.
    pub open spec fn lookup_spec(self, identity: u64, handle: u32) -> Option<I2cPermissions> {
        match Self::find_instance(self.instances@, identity) {
            Some(e) => Self::find_handle(e.handles@, handle),
            None => None,
        }
    }

    /// Every handle in `e` was allocated by the counter: nonzero and below
    /// its next value.
    pub open spec fn entry_wf(e: InstanceEntry, next_handle: u32) -> bool {
        forall|i: int|
            0 <= i < e.handles@.len() ==> 1 <= #[trigger] e.handles@[i].handle < next_handle
    }

    /// Registry invariant: the counter has not wrapped past its start,
    /// identities name at most one entry, and every registered handle lies
    /// below the counter — so the counter's next value is registered
    /// nowhere.
    pub open spec fn wf(self) -> bool {
        &&& 1 <= self.next_handle
        &&& forall|i: int, j: int|
            0 <= i < j < self.instances@.len() ==> self.instances@[i].identity
                != self.instances@[j].identity
        &&& forall|i: int|
            0 <= i < self.instances@.len() ==> Self::entry_wf(
                #[trigger] self.instances@[i],
                self.next_handle,
            )
    }

    /// An empty registry, holding no entry for any identity.
    pub fn new() -> (r: Self)
        ensures
            r.wf(),
            r.next_handle == 1,
            forall|identity: u64, handle: u32| r.lookup_spec(identity, handle) is None,
    {
        I2cManager { next_handle: 1, instances: Vec::new() }
    }

    /// Allocate a fresh handle: one not currently registered for any
    /// identity (see [`Self::lemma_next_handle_unregistered`]).
    pub fn new_handle(&mut self) -> (handle: u32)
        requires
            old(self).wf(),
            old(self).next_handle < u32::MAX,
        ensures
            final(self).wf(),
            handle == old(self).next_handle,
            final(self).next_handle == old(self).next_handle + 1,
            final(self).instances == old(self).instances,
    {
        let handle = self.next_handle;
        self.next_handle = self.next_handle + 1;
        proof {
            assert forall|i: int| 0 <= i < self.instances@.len() implies Self::entry_wf(
                #[trigger] self.instances@[i],
                self.next_handle,
            ) by {
                assert(Self::entry_wf(self.instances@[i], old(self).next_handle));
            }
        }
        handle
    }

    /// If `find_instance` answers, the answer is a row of the sequence and
    /// its identity matches.
    proof fn lemma_find_instance_in(s: Seq<InstanceEntry>, identity: u64)
        ensures
            Self::find_instance(s, identity) matches Some(e) ==> e.identity == identity
                && exists|k: int| 0 <= k < s.len() && s[k] == e,
        decreases s.len(),
    {
        if s.len() > 0 {
            if s.last().identity == identity {
                assert(s[s.len() - 1] == s.last());
            } else {
                Self::lemma_find_instance_in(s.drop_last(), identity);
                if Self::find_instance(s.drop_last(), identity) is Some {
                    let e = Self::find_instance(s.drop_last(), identity).unwrap();
                    let k = choose|k: int|
                        0 <= k < s.drop_last().len() && s.drop_last()[k] == e;
                    assert(s[k] == e);
                }
            }
        }
    }

    /// With pairwise-distinct identities, the row whose identity matches is
    /// the one `find_instance` returns.
    proof fn lemma_find_instance_present(s: Seq<InstanceEntry>, identity: u64, k: int)
        requires
            forall|i: int, j: int|
                0 <= i < j < s.len() ==> s[i].identity != s[j].identity,
            0 <= k < s.len(),
            s[k].identity == identity,
        ensures
            Self::find_instance(s, identity) == Some(s[k]),
        decreases s.len(),
    {
        if s.last().identity == identity {
            assert(k == s.len() - 1);
            assert(s[k] == s.last());
        } else {
            assert(k < s.len() - 1);
            assert(s.drop_last()[k] == s[k]);
            Self::lemma_find_instance_present(s.drop_last(), identity, k);
        }
    }

    /// If no row carries `identity`, `find_instance` finds nothing.
    proof fn lemma_find_instance_absent(s: Seq<InstanceEntry>, identity: u64)
        requires
            forall|i: int| 0 <= i < s.len() ==> s[i].identity != identity,
        ensures
            Self::find_instance(s, identity) is None,
        decreases s.len(),
    {
        if s.len() > 0 {
            assert(s[s.len() - 1].identity != identity);
            Self::lemma_find_instance_absent(s.drop_last(), identity);
        }
    }

    /// If `find_handle` answers, some row carries `handle`.
    proof fn lemma_find_handle_in(s: Seq<HandleEntry>, handle: u32)
        ensures
            Self::find_handle(s, handle) is Some ==> exists|k: int|
                0 <= k < s.len() && #[trigger] s[k].handle == handle,
        decreases s.len(),
    {
        if s.len() > 0 {
            if s.last().handle == handle {
                assert(s[s.len() - 1].handle == handle);
            } else {
                Self::lemma_find_handle_in(s.drop_last(), handle);
                if Self::find_handle(s.drop_last(), handle) is Some {
                    let k = choose|k: int|
                        0 <= k < s.drop_last().len() && #[trigger] s.drop_last()[k].handle
                            == handle;
                    assert(s[k].handle == handle);
                }
            }
        }
    }

    /// If no row carries `handle`, `find_handle` finds nothing.
    proof fn lemma_find_handle_absent(s: Seq<HandleEntry>, handle: u32)
        requires
            forall|i: int| 0 <= i < s.len() ==> s[i].handle != handle,
        ensures
            Self::find_handle(s, handle) is None,
        decreases s.len(),
    {
        if s.len() > 0 {
            assert(s[s.len() - 1].handle != handle);
            Self::lemma_find_handle_absent(s.drop_last(), handle);
        }
    }

    /// Law: every handle registered under any identity lies strictly below
    /// the allocation counter. Acquiring returns the counter's value and
    /// advances it, so across any sequence of acquisitions each returned
    /// handle exceeds every handle already present — unique within its
    /// identity's entry, and indeed across the whole registry.
    pub proof fn lemma_registered_handles_below_counter(self, identity: u64, handle: u32)
        requires
            self.wf(),
            self.lookup_spec(identity, handle) is Some,
        ensures
            1 <= handle < self.next_handle,
    {
        Self::lemma_find_instance_in(self.instances@, identity);
        let e = Self::find_instance(self.instances@, identity).unwrap();
        let k = choose|k: int| 0 <= k < self.instances@.len() && self.instances@[k] == e;
        assert(Self::entry_wf(e, self.next_handle));
        Self::lemma_find_handle_in(e.handles@, handle);
        let j = choose|j: int| 0 <= j < e.handles@.len() && #[trigger] e.handles@[j].handle
            == handle;
        assert(1 <= e.handles@[j].handle < self.next_handle);
    }

    /// The counter's next value is registered for no identity: what
    /// [`Self::new_handle`] returns is fresh across the whole registry, so
    /// every handle it ever returned is unique — in particular unique
    /// within each identity's entry.
    pub proof fn lemma_next_handle_unregistered(self)
        requires
            self.wf(),
        ensures
            forall|identity: u64| self.lookup_spec(identity, self.next_handle) is None,
    {
        assert forall|identity: u64| self.lookup_spec(identity, self.next_handle) is None by {
            Self::lemma_find_instance_in(self.instances@, identity);
            match Self::find_instance(self.instances@, identity) {
                Some(e) => {
                    let k = choose|k: int|
                        0 <= k < self.instances@.len() && self.instances@[k] == e;
                    assert(Self::entry_wf(e, self.next_handle));
                    assert forall|i: int| 0 <= i < e.handles@.len() implies e.handles@[i].handle
                        != self.next_handle by {
                        assert(1 <= e.handles@[i].handle < self.next_handle);
                    }
                    Self::lemma_find_handle_absent(e.handles@, self.next_handle);
                }
                None => {}
            }
        }
    }

    /// Index of the row `find_instance` would take, scanning latest-first.
    fn find_instance_index(&self, identity: u64) -> (r: Option<usize>)
        ensures
            match r {
                Some(k) => k < self.instances@.len() && self.instances@[k as int].identity
                    == identity && Self::find_instance(self.instances@, identity) == Some(
                    self.instances@[k as int],
                ),
                None => Self::find_instance(self.instances@, identity) is None,
            },
    {
        let ghost s = self.instances@;
        let mut i: usize = self.instances.len();
        proof {
            assert(s.subrange(0, i as int) =~= s);
        }
        while i > 0
            invariant
                i <= s.len(),
                self.instances@ == s,
                Self::find_instance(s, identity) == Self::find_instance(
                    s.subrange(0, i as int),
                    identity,
                ),
            decreases i,
        {
            let idx = i - 1;
            let ghost prefix = s.subrange(0, i as int);
            proof {
                assert(prefix.last() == s[idx as int]);
                assert(prefix.drop_last() =~= s.subrange(0, idx as int));
            }
            if self.instances[idx].identity == identity {
                return Some(idx);
            }
            i = idx;
        }
        proof {
            assert(s.subrange(0, 0) =~= Seq::<InstanceEntry>::empty());
        }
        None
    }

    /// Index of the row `find_handle` would take, scanning latest-first.
    fn find_handle_index(handles: &Vec<HandleEntry>, handle: u32) -> (r: Option<usize>)
        ensures
            match r {
                Some(k) => k < handles@.len() && handles@[k as int].handle == handle
                    && Self::find_handle(handles@, handle) == Some(
                    handles@[k as int].perms,
                ),
                None => Self::find_handle(handles@, handle) is None,
            },
    {
        let ghost s = handles@;
        let mut i: usize = handles.len();
        proof {
            assert(s.subrange(0, i as int) =~= s);
        }
        while i > 0
            invariant
                i <= s.len(),
                handles@ == s,
                Self::find_handle(s, handle) == Self::find_handle(
                    s.subrange(0, i as int),
                    handle,
                ),
            decreases i,
        {
            let idx = i - 1;
            let ghost prefix = s.subrange(0, i as int);
            proof {
                assert(prefix.last() == s[idx as int]);
                assert(prefix.drop_last() =~= s.subrange(0, idx as int));
            }
            if handles[idx].handle == handle {
                return Some(idx);
            }
            i = idx;
        }
        proof {
            assert(s.subrange(0, 0) =~= Seq::<HandleEntry>::empty());
        }
        None
    }

    /// Insert `perms` under `identity` at key `handle`, creating the
    /// identity's entry if absent; registering an existing handle again
    /// overwrites its permissions. Handles come from [`Self::new_handle`],
    /// so the key lies below the counter.
    pub fn register(&mut self, identity: u64, handle: u32, perms: I2cPermissions)
        requires
            old(self).wf(),
            1 <= handle < old(self).next_handle,
        ensures
            final(self).wf(),
            final(self).next_handle == old(self).next_handle,
            final(self).lookup_spec(identity, handle) == Some(perms),
            forall|id2: u64, h2: u32|
                !(id2 == identity && h2 == handle) ==> final(self).lookup_spec(id2, h2) == old(
                    self,
                ).lookup_spec(id2, h2),
    {
        let ghost s0 = self.instances@;
        match self.find_instance_index(identity) {
            Some(i) => {
                let ghost e0 = s0[i as int];
                self.instances[i].handles.push(HandleEntry { handle, perms });
                proof {
                    let s1 = self.instances@;
                    let e1 = s1[i as int];
                    assert(e1.handles@ == e0.handles@.push(HandleEntry { handle, perms }));
                    assert(e1.handles@.last() == HandleEntry { handle, perms });
                    assert(e1.handles@.drop_last() =~= e0.handles@);
                    // The updated row is the one lookups take, for this
                    // identity; rows of other identities are untouched.
                    Self::lemma_find_instance_present(s1, identity, i as int);
                    assert(Self::find_handle(e1.handles@, handle) == Some(perms));
                    assert forall|id2: u64, h2: u32|
                        !(id2 == identity && h2 == handle) implies self.lookup_spec(id2, h2)
                        == old(self).lookup_spec(id2, h2) by {
                        if id2 == identity {
                            assert(Self::find_handle(e1.handles@, h2) == Self::find_handle(
                                e0.handles@,
                                h2,
                            ));
                        } else {
                            Self::lemma_find_instance_in(s0, id2);
                            Self::lemma_find_instance_in(s1, id2);
                            match Self::find_instance(s0, id2) {
                                Some(e) => {
                                    let k = choose|k: int| 0 <= k < s0.len() && s0[k] == e;
                                    assert(k != i);
                                    assert(s1[k] == s0[k]);
                                    Self::lemma_find_instance_present(s1, id2, k);
                                }
                                None => {
                                    assert forall|k: int|
                                        0 <= k < s1.len() implies s1[k].identity != id2 by {
                                        if k == i {
                                            assert(s1[k].identity == identity);
                                        } else {
                                            assert(s1[k] == s0[k]);
                                            if s1[k].identity == id2 {
                                                Self::lemma_find_instance_present(s0, id2, k);
                                            }
                                        }
                                    }
                                    Self::lemma_find_instance_absent(s1, id2);
                                }
                            }
                        }
                    }
                }
            }
            None => {
                let mut handles: Vec<HandleEntry> = Vec::new();
                handles.push(HandleEntry { handle, perms });
                self.instances.push(InstanceEntry { identity, handles });
                proof {
                    let s1 = self.instances@;
                    assert(s1.last().identity == identity);
                    assert(s1.last().handles@.len() == 1);
                    assert(s1.last().handles@.last() == HandleEntry { handle, perms });
                    assert(s1.drop_last() =~= s0);
                    assert(Self::find_instance(s1, identity) == Some(s1.last()));
                    assert(Self::find_handle(s1.last().handles@, handle) == Some(perms));
                    Self::lemma_find_instance_in(s0, identity);
                    assert forall|id2: u64, h2: u32|
                        !(id2 == identity && h2 == handle) implies self.lookup_spec(id2, h2)
                        == old(self).lookup_spec(id2, h2) by {
                        if id2 == identity {
                            assert(s1.last().handles@.drop_last()
                                =~= Seq::<HandleEntry>::empty());
                            assert(Self::find_handle(Seq::<HandleEntry>::empty(), h2) is None);
                            assert(Self::find_handle(s1.last().handles@, h2) is None);
                        }
                    }
                    assert forall|i: int, j: int|
                        0 <= i < j < s1.len() implies s1[i].identity != s1[j].identity by {
                        if j == s1.len() - 1 {
                            if s1[i].identity == identity {
                                Self::lemma_find_instance_present(s0, identity, i);
                            }
                        }
                    }
                }
            }
        }
    }

    /// The permissions that `identity` holds for `handle`, if and only if
    /// `identity` has an entry containing `handle`; unknown identities and
    /// unknown handles both answer `None`, which callers treat as denial.
    pub fn get_permissions(&self, identity: u64, handle: u32) -> (r: Option<&I2cPermissions>)
        ensures
            match r {
                Some(p) => self.lookup_spec(identity, handle) == Some(*p),
                None => self.lookup_spec(identity, handle) is None,
            },
    {
        match self.find_instance_index(identity) {
            None => None,
            Some(i) => {
                let entry = &self.instances[i];
                match Self::find_handle_index(&entry.handles, handle) {
                    None => None,
                    Some(j) => Some(&entry.handles[j].perms),
                }
            }
        }
    }
}

} // verus!
