//! The shared-value handle: one attachment to one named segment.
//!
//! An `IpcArc` composes the pieces: it creates or opens a segment by name,
//! counts itself in the shared attachment counter, takes scoped exclusive
//! access to the payload through the embedded mutex, and on detach
//! decrements the counter — destroying the segment exactly when it observes
//! the one-to-zero transition.

use crate::registry::{
    fresh_segment, has_linked, linked_index, seg_attach, seg_dec, seg_detach, seg_init, seg_lock,
    seg_unlink, seg_unlock, seg_write, Registry, SegModel, SharedMemResult,
};
use crate::IpcError;
use core::marker::PhantomData;
use vstd::prelude::*;

verus! {

/// What `create_or_open` does to the namespace: attach to the segment the
/// name is linked to and overwrite its payload, or — when the name is free —
/// create a zeroed segment, initialize its mutex once, attach, and write the
/// first payload.
pub open spec fn spec_create_or_open<T>(m: Seq<SegModel<T>>, name: Seq<char>, v: T) -> Seq<
    SegModel<T>,
> {
    if has_linked(m, name) {
        let i = linked_index(m, name);
        m.update(i, seg_write(seg_attach(m[i]), v))
    } else {
        m.push(seg_write(seg_attach(seg_init(fresh_segment(name))), v))
    }
}

/// What `open` does to the namespace: attach to the segment the name is
/// linked to, touching nothing else; a free name is an error and no change.
pub open spec fn spec_open<T>(m: Seq<SegModel<T>>, name: Seq<char>) -> Seq<SegModel<T>> {
    if has_linked(m, name) {
        let i = linked_index(m, name);
        m.update(i, seg_attach(m[i]))
    } else {
        m
    }
}

/// A scoped witness of exclusive access to one segment's payload.  It is
/// handed out by `lock` and gives the payload back to the namespace when
/// `unlock` consumes it.
pub struct MutexGuard {
    /// The segment whose mutex this guard holds.
    pub seg: usize,
}

impl MutexGuard {
    /// The guard is honest: its segment exists and its mutex is held.
    pub open spec fn valid<T>(self, m: Seq<SegModel<T>>) -> bool {
        &&& self.seg < m.len()
        &&& m[self.seg as int].locked
    }

    /// Read the payload under the guard.
    pub fn get<'a, T>(&self, reg: &'a Registry<T>) -> (r: &'a T)
        requires
            self.valid(reg@),
            reg@[self.seg as int].payload is Some,
        ensures
            reg@[self.seg as int].payload == Some(*r),
    {
        reg.payload_ref(self.seg)
    }

    /// Write the payload under the guard.
    pub fn set<T>(&self, reg: &mut Registry<T>, v: T)
        requires
            old(reg).wf(),
            self.valid(old(reg)@),
        ensures
            final(reg).wf(),
            final(reg)@ == old(reg)@.update(
                self.seg as int,
                seg_write(old(reg)@[self.seg as int], v),
            ),
    {
        reg.write_at(self.seg, v);
    }

    /// Release the mutex.  Consuming the guard is what makes a double
    /// release impossible: the protocol treats one as fatal.
    pub fn unlock<T>(self, reg: &mut Registry<T>)
        requires
            old(reg).wf(),
            self.valid(old(reg)@),
        ensures
            final(reg).wf(),
            final(reg)@ == old(reg)@.update(
                self.seg as int,
                seg_unlock(old(reg)@[self.seg as int]),
            ),
    {
        reg.unlock_at(self.seg);
    }
}

/// One attachment to one named segment.
pub struct IpcArc<T> {
    /// The name this handle attached under.
    pub name: String,
    /// The segment attached to.
    pub seg: usize,
    /// Whether this handle's call won the creation race and initialized the
    /// segment.
    pub created: bool,
    /// The payload type the segment is laid out for.
    pub marker: PhantomData<T>,
}

impl<T> IpcArc<T> {
    /// The handle is honest: its segment exists, still answers to the
    /// handle's name, and counts at least this attachment.
    pub open spec fn valid(self, m: Seq<SegModel<T>>) -> bool {
        &&& self.seg < m.len()
        &&& m[self.seg as int].linked
        &&& m[self.seg as int].name == self.name@
        &&& 1 <= m[self.seg as int].counter
    }

    /// Create the segment named `name`, or attach to it if another caller
    /// created it first.  Exactly the creation winner zeroes the header and
    /// initializes the mutex; every path attaches and then writes `val` over
    /// the payload — also when the segment already existed, so a later
    /// caller overwrites an earlier owner's value.
    pub fn create_or_open(reg: &mut Registry<T>, name: &str, val: T) -> (r: Result<
        IpcArc<T>,
        IpcError,
    >)
        requires
            old(reg).wf(),
            has_linked(old(reg)@, name@) ==> old(reg)@[linked_index(old(reg)@, name@)].counter
                < usize::MAX,
        ensures
            final(reg).wf(),
            final(reg)@ == spec_create_or_open(old(reg)@, name@, val),
            r matches Ok(h) && h.name@ == name@ && h.valid(final(reg)@) && (h.created
                <==> !has_linked(old(reg)@, name@)) && h.seg as int == (
            if has_linked(old(reg)@, name@) {
                linked_index(old(reg)@, name@)
            } else {
                old(reg)@.len() as int
            }) && final(reg)@[h.seg as int].payload == Some(val),
    {
        let ghost m0 = reg@;
        let is_owner: bool;
        let i: usize;
        match reg.try_create(name) {
            SharedMemResult::Opened(id) => {
                is_owner = true;
                i = id;
            },
            SharedMemResult::AlreadyExist => {
                is_owner = false;
                let key: String = name.to_owned();
                match reg.find_linked(&key) {
                    Some(j) => {
                        i = j;
                    },
                    None => {
                        proof {
                            assert(false);
                        }
                        i = 0;
                    },
                }
            },
            SharedMemResult::Error(e) => {
                return Err(e);
            },
        }
        if is_owner {
            reg.init_at(i);
        }
        reg.attach_at(i);
        reg.write_at(i, val);
        proof {
            assert(reg@ =~= spec_create_or_open(m0, name@, val));
        }
        Ok(IpcArc { name: name.to_owned(), seg: i, created: is_owner, marker: PhantomData })
    }

    /// Attach to the existing segment named `name`.  A free name is refused
    /// with `NotFound` and nothing changes — in particular no segment is
    /// created.  On success the counter comes up by one and the payload is
    /// left untouched.
    pub fn open(reg: &mut Registry<T>, name: &str) -> (r: Result<IpcArc<T>, IpcError>)
        requires
            old(reg).wf(),
            has_linked(old(reg)@, name@) ==> old(reg)@[linked_index(old(reg)@, name@)].counter
                < usize::MAX,
        ensures
            final(reg).wf(),
            final(reg)@ == spec_open(old(reg)@, name@),
            !has_linked(old(reg)@, name@) ==> (r matches Err(e) && e == IpcError::NotFound)
                && final(reg)@ == old(reg)@,
            has_linked(old(reg)@, name@) ==> (r matches Ok(h) && h.name@ == name@ && h.valid(
                final(reg)@,
            ) && !h.created && h.seg as int == linked_index(old(reg)@, name@)),
    {
        let key: String = name.to_owned();
        match reg.find_linked(&key) {
            Some(i) => {
                reg.attach_at(i);
                Ok(IpcArc { name: key, seg: i, created: false, marker: PhantomData })
            },
            None => Err(IpcError::NotFound),
        }
    }

    /// Take the embedded mutex and return the guard of exclusive payload
    /// access.  The real lock blocks until it is acquired; here a caller
    /// holds it only between `lock` and the guard's `unlock`, so taking it
    /// while it is held — which could never return — is ruled out up front.
    pub fn lock(&self, reg: &mut Registry<T>) -> (g: MutexGuard)
        requires
            old(reg).wf(),
            self.valid(old(reg)@),
            !old(reg)@[self.seg as int].locked,
        ensures
            final(reg).wf(),
            final(reg)@ == old(reg)@.update(self.seg as int, seg_lock(old(reg)@[self.seg as int])),
            g.seg == self.seg,
            g.valid(final(reg)@),
    {
        reg.lock_at(self.seg);
        MutexGuard { seg: self.seg }
    }

    /// Read the payload without taking the mutex.  Nothing synchronizes
    /// this against guard holders, which in this sequential model is
    /// harmless.
    pub fn as_ref<'a>(&self, reg: &'a Registry<T>) -> (r: &'a T)
        requires
            self.valid(reg@),
            reg@[self.seg as int].payload is Some,
        ensures
            reg@[self.seg as int].payload == Some(*r),
    {
        reg.payload_ref(self.seg)
    }

    /// Write the payload without taking the mutex; the unguarded counterpart
    /// of writing through the guard.
    pub fn as_mut(&self, reg: &mut Registry<T>, v: T)
        requires
            old(reg).wf(),
            self.valid(old(reg)@),
        ensures
            final(reg).wf(),
            final(reg)@ == old(reg)@.update(
                self.seg as int,
                seg_write(old(reg)@[self.seg as int], v),
            ),
    {
        reg.write_at(self.seg, v);
    }

    /// One load of the shared attachment counter.  Diagnostic: nothing
    /// orders it against concurrent attaches and detaches.
    pub fn read_counter(&self, reg: &Registry<T>) -> (r: usize)
        requires
            self.seg < reg@.len(),
        ensures
            r as nat == reg@[self.seg as int].counter,
    {
        reg.counter_at(self.seg)
    }

    /// Count one more attachment, raw: the counter moves and nothing else.
    pub fn inc_counter(&self, reg: &mut Registry<T>)
        requires
            old(reg).wf(),
            self.seg < old(reg)@.len(),
            old(reg)@[self.seg as int].counter < usize::MAX,
        ensures
            final(reg).wf(),
            final(reg)@ == old(reg)@.update(
                self.seg as int,
                seg_attach(old(reg)@[self.seg as int]),
            ),
    {
        reg.attach_at(self.seg);
    }

    /// Count one attachment out, raw: the counter moves and nothing else —
    /// in particular no destroy, however low the counter goes.
    pub fn dec_counter(&self, reg: &mut Registry<T>)
        requires
            old(reg).wf(),
            self.seg < old(reg)@.len(),
            1 <= old(reg)@[self.seg as int].counter,
        ensures
            final(reg).wf(),
            final(reg)@ == old(reg)@.update(self.seg as int, seg_dec(old(reg)@[self.seg as int])),
    {
        reg.dec_at(self.seg);
    }

    /// Detach this handle: one atomic decrement-and-decide.  Exactly the
    /// caller that observes the one-to-zero transition destroys the segment;
    /// every other caller merely decrements.  Consuming the handle is what
    /// makes a second detach of the same attachment impossible.
    pub fn unlink(self, reg: &mut Registry<T>) -> (r: Result<(), IpcError>)
        requires
            old(reg).wf(),
            self.valid(old(reg)@),
        ensures
            final(reg).wf(),
            final(reg)@ == old(reg)@.update(
                self.seg as int,
                seg_detach(old(reg)@[self.seg as int]),
            ),
            r is Ok,
            old(reg)@[self.seg as int].counter == 1 ==> !final(reg)@[self.seg as int].linked,
            1 < old(reg)@[self.seg as int].counter ==> final(reg)@[self.seg as int].linked,
    {
        let _destroyed = reg.detach_at(self.seg);
        Ok(())
    }

    /// Destroy the segment now, whatever the counter says.  The name leaves
    /// the namespace; attached handles keep their mappings, and the caller
    /// answers for them.
    pub fn force_unlink(&self, reg: &mut Registry<T>) -> (r: Result<(), IpcError>)
        requires
            old(reg).wf(),
            self.valid(old(reg)@),
        ensures
            final(reg).wf(),
            final(reg)@ == old(reg)@.update(
                self.seg as int,
                seg_unlink(old(reg)@[self.seg as int]),
            ),
            r is Ok,
            !final(reg)@[self.seg as int].linked,
    {
        reg.unlink_at(self.seg);
        Ok(())
    }
}

} // verus!
