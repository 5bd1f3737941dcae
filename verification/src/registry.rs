//! The shared-memory namespace and the segments in it.
//!
//! A `Registry` models the host's shared-memory namespace: the set of named
//! segments, each with its linked name, its attachment counter, its
//! process-shared lock word and its typed payload.  A segment whose name has
//! been unlinked stays in the registry — mappings held by attached processes
//! outlive the name — but no longer answers to its name.

use crate::IpcError;
use vstd::pervasive::unreached;
use vstd::prelude::*;

verus! {

/// The model of one segment: what every process attached to it agrees on.
pub struct SegModel<T> {
    /// The segment's name in the namespace.
    pub name: Seq<char>,
    /// Whether the name still resolves to this segment.
    pub linked: bool,
    /// How many attachments the segment currently counts.
    pub counter: nat,
    /// Whether the embedded mutex is held.
    pub locked: bool,
    /// How many times the embedded mutex has been initialized; the protocol
    /// demands exactly once per segment lifetime.
    pub init_count: nat,
    /// The payload, once a value has been written; a freshly created
    /// segment holds only zeroed storage, which is no value of the payload
    /// type.
    pub payload: Option<T>,
}

/// One segment as stored.
pub struct Segment<T> {
    /// The segment's name in the namespace.
    pub name: String,
    /// Whether the name still resolves to this segment.
    pub linked: bool,
    /// How many attachments the segment currently counts.
    pub counter: usize,
    /// Whether the embedded mutex is held.
    pub locked: bool,
    /// How many times the embedded mutex has been initialized.
    pub init_count: Ghost<nat>,
    /// The payload, once a value has been written.
    pub payload: Option<T>,
}

impl<T> View for Segment<T> {
    type V = SegModel<T>;

    open spec fn view(&self) -> SegModel<T> {
        SegModel {
            name: self.name@,
            linked: self.linked,
            counter: self.counter as nat,
            locked: self.locked,
            init_count: self.init_count@,
            payload: self.payload,
        }
    }
}

/// Whether `name` is linked to some segment of the namespace model `m`.
pub open spec fn has_linked<T>(m: Seq<SegModel<T>>, name: Seq<char>) -> bool {
    exists|i: int| 0 <= i < m.len() && m[i].linked && m[i].name == name
}

/// The index of the segment `name` is linked to; meaningful when
/// `has_linked` holds, unique when the model is well formed.
pub open spec fn linked_index<T>(m: Seq<SegModel<T>>, name: Seq<char>) -> int {
    choose|i: int| 0 <= i < m.len() && m[i].linked && m[i].name == name
}

/// Well-formedness of the namespace model: a name is linked to at most one
/// segment.
pub open spec fn wf_model<T>(m: Seq<SegModel<T>>) -> bool {
    forall|i: int, j: int|
        #![trigger m[i], m[j]]
        0 <= i < m.len() && 0 <= j < m.len() && i != j && m[i].linked && m[j].linked
            ==> m[i].name != m[j].name
}

/// A segment as it leaves creation: linked under its name, zeroed header —
/// counter zero, lock word clear, mutex not yet initialized — and no
/// payload value yet.
pub open spec fn fresh_segment<T>(name: Seq<char>) -> SegModel<T> {
    SegModel { name, linked: true, counter: 0, locked: false, init_count: 0, payload: None }
}

/// One more attachment: the counter comes up by one.
pub open spec fn seg_attach<T>(s: SegModel<T>) -> SegModel<T> {
    SegModel { counter: s.counter + 1, ..s }
}

/// One fewer attachment: the counter comes down by one and nothing else
/// moves.
pub open spec fn seg_dec<T>(s: SegModel<T>) -> SegModel<T> {
    SegModel { counter: (s.counter - 1) as nat, ..s }
}

/// A payload value written over whatever the segment held.
pub open spec fn seg_write<T>(s: SegModel<T>, v: T) -> SegModel<T> {
    SegModel { payload: Some(v), ..s }
}

/// The creator's one-time setup: the header zeroed — counter, lock word and
/// payload storage — and the mutex initialized in place.
pub open spec fn seg_init<T>(s: SegModel<T>) -> SegModel<T> {
    SegModel {
        counter: 0,
        locked: false,
        payload: None,
        init_count: s.init_count + 1,
        ..s
    }
}

/// The name taken out of the namespace; the segment itself survives for
/// whoever is still attached.
pub open spec fn seg_unlink<T>(s: SegModel<T>) -> SegModel<T> {
    SegModel { linked: false, ..s }
}

/// One detachment: the counter comes down by one, and exactly the caller
/// that observes the one-to-zero transition also destroys the segment.
pub open spec fn seg_detach<T>(s: SegModel<T>) -> SegModel<T> {
    if s.counter == 1 {
        seg_unlink(seg_dec(s))
    } else {
        seg_dec(s)
    }
}

/// The embedded mutex taken.
pub open spec fn seg_lock<T>(s: SegModel<T>) -> SegModel<T> {
    SegModel { locked: true, ..s }
}

/// The embedded mutex released.
pub open spec fn seg_unlock<T>(s: SegModel<T>) -> SegModel<T> {
    SegModel { locked: false, ..s }
}

/// Replacing a segment by one with the same name, and linked only if it was,
/// cannot link one name to two segments.
pub proof fn lemma_wf_update<T>(m: Seq<SegModel<T>>, i: int, s: SegModel<T>)
    requires
        wf_model(m),
        0 <= i < m.len(),
        s.name == m[i].name,
        s.linked ==> m[i].linked,
    ensures
        wf_model(m.update(i, s)),
{
    let m2 = m.update(i, s);
    assert forall|a: int, b: int|
        #![trigger m2[a], m2[b]]
        0 <= a < m2.len() && 0 <= b < m2.len() && a != b && m2[a].linked && m2[b].linked
            implies m2[a].name != m2[b].name by {
        assert(m[a].linked && m[a].name == m2[a].name || a == i);
        assert(m[b].linked && m[b].name == m2[b].name || b == i);
    }
}

/// The outcome of an exclusive creation attempt on a name.
pub enum SharedMemResult {
    /// This caller created the segment; the value identifies it.
    Opened(usize),
    /// Another caller created the segment first.
    AlreadyExist,
    /// The platform refused the attempt.
    Error(IpcError),
}

/// The host's shared-memory namespace.
pub struct Registry<T> {
    /// The segments, in order of creation; an unlinked segment keeps its
    /// slot while attached processes may still map it.
    pub segs: Vec<Segment<T>>,
}

impl<T> View for Registry<T> {
    type V = Seq<SegModel<T>>;

    open spec fn view(&self) -> Seq<SegModel<T>> {
        self.segs@.map(|i: int, s: Segment<T>| s@)
    }
}

impl<T> Registry<T> {
    /// Whether every name of this registry is linked to at most one segment.
    pub open spec fn wf(&self) -> bool {
        wf_model(self@)
    }

    /// An empty namespace.
    pub fn new() -> (r: Self)
        ensures
            r@ == Seq::<SegModel<T>>::empty(),
            r.wf(),
    {
        let r = Registry { segs: Vec::new() };
        proof {
            assert(r@ =~= Seq::<SegModel<T>>::empty());
        }
        r
    }

    /// The segment `name` is linked to, if any.
    pub(crate) fn find_linked(&self, name: &String) -> (r: Option<usize>)
        requires
            self.wf(),
        ensures
            match r {
                Some(i) => has_linked(self@, name@) && i == linked_index(self@, name@)
                    && i < self@.len() && self@[i as int].linked && self@[i as int].name == name@,
                None => !has_linked(self@, name@),
            },
    {
        let n = self.segs.len();
        let mut i: usize = 0;
        while i < n
            invariant
                self.wf(),
                n == self.segs.len(),
                i <= n,
                self@.len() == n,
                forall|j: int| 0 <= j < i ==> !(self@[j].linked && self@[j].name == name@),
            decreases n - i,
        {
            let s = &self.segs[i];
            if s.linked && s.name == *name {
                proof {
                    assert(self@[i as int].linked && self@[i as int].name == name@);
                    assert(has_linked(self@, name@));
                    let k = linked_index(self@, name@);
                    assert(0 <= k < self@.len() && self@[k].linked && self@[k].name == name@);
                    if k != i as int {
                        assert(self@[k].name != self@[i as int].name);
                        assert(false);
                    }
                }
                return Some(i);
            }
            i = i + 1;
        }
        None
    }

    /// Whether `name` currently resolves to a segment.
    pub fn contains_name(&self, name: &str) -> (r: bool)
        requires
            self.wf(),
        ensures
            r == has_linked(self@, name@),
    {
        let key: String = name.to_owned();
        self.find_linked(&key).is_some()
    }

    /// Exclusive creation: if `name` is free, create a zeroed segment under
    /// it and say so; if it is taken, change nothing and say so.  The model
    /// namespace refuses an attempt for no other reason.
    pub fn try_create(&mut self, name: &str) -> (r: SharedMemResult)
        requires
            old(self).wf(),
        ensures
            final(self).wf(),
            has_linked(old(self)@, name@) ==> (r is AlreadyExist && final(self)@ == old(self)@),
            !has_linked(old(self)@, name@) ==> (r matches SharedMemResult::Opened(id)
                && id == old(self)@.len()
                && final(self)@ == old(self)@.push(fresh_segment::<T>(name@))),
            !(r is Error),
    {
        let key: String = name.to_owned();
        match self.find_linked(&key) {
            Some(_) => SharedMemResult::AlreadyExist,
            None => {
                let id = self.segs.len();
                self.segs.push(
                    Segment {
                        name: key,
                        linked: true,
                        counter: 0,
                        locked: false,
                        init_count: Ghost(0 as nat),
                        payload: None,
                    },
                );
                proof {
                    assert(self@ =~= old(self)@.push(fresh_segment::<T>(name@)));
                }
                SharedMemResult::Opened(id)
            },
        }
    }

    /// One more attachment on segment `i`.
    pub(crate) fn attach_at(&mut self, i: usize)
        requires
            old(self).wf(),
            i < old(self)@.len(),
            old(self)@[i as int].counter < usize::MAX,
        ensures
            final(self).wf(),
            final(self)@ == old(self)@.update(i as int, seg_attach(old(self)@[i as int])),
    {
        let seg = &mut self.segs[i];
        seg.counter = seg.counter + 1;
        proof {
            assert(self@ =~= old(self)@.update(i as int, seg_attach(old(self)@[i as int])));
            lemma_wf_update(old(self)@, i as int, seg_attach(old(self)@[i as int]));
        }
    }

    /// One fewer attachment on segment `i`, with nothing else moved.
    pub(crate) fn dec_at(&mut self, i: usize)
        requires
            old(self).wf(),
            i < old(self)@.len(),
            1 <= old(self)@[i as int].counter,
        ensures
            final(self).wf(),
            final(self)@ == old(self)@.update(i as int, seg_dec(old(self)@[i as int])),
    {
        let seg = &mut self.segs[i];
        seg.counter = seg.counter - 1;
        proof {
            assert(self@ =~= old(self)@.update(i as int, seg_dec(old(self)@[i as int])));
            lemma_wf_update(old(self)@, i as int, seg_dec(old(self)@[i as int]));
        }
    }

    /// One detachment on segment `i`: decrement, and destroy exactly on the
    /// one-to-zero transition.  Returns whether this caller destroyed.
    pub(crate) fn detach_at(&mut self, i: usize) -> (destroyed: bool)
        requires
            old(self).wf(),
            i < old(self)@.len(),
            1 <= old(self)@[i as int].counter,
        ensures
            final(self).wf(),
            final(self)@ == old(self)@.update(i as int, seg_detach(old(self)@[i as int])),
            destroyed <==> old(self)@[i as int].counter == 1,
    {
        let seg = &mut self.segs[i];
        let d = crate::detach_decision(seg.counter);
        seg.counter = d.0;
        if d.1 {
            seg.linked = false;
        }
        proof {
            assert(self@ =~= old(self)@.update(i as int, seg_detach(old(self)@[i as int])));
            lemma_wf_update(old(self)@, i as int, seg_detach(old(self)@[i as int]));
        }
        d.1
    }

    /// The creator's one-time setup of segment `i`: zero the header and
    /// initialize the embedded mutex in place.
    pub(crate) fn init_at(&mut self, i: usize)
        requires
            old(self).wf(),
            i < old(self)@.len(),
        ensures
            final(self).wf(),
            final(self)@ == old(self)@.update(i as int, seg_init(old(self)@[i as int])),
    {
        let seg = &mut self.segs[i];
        seg.counter = 0;
        seg.locked = false;
        seg.payload = None;
        seg.init_count = Ghost(seg.init_count@ + 1);
        proof {
            assert(self@ =~= old(self)@.update(i as int, seg_init(old(self)@[i as int])));
            lemma_wf_update(old(self)@, i as int, seg_init(old(self)@[i as int]));
        }
    }

    /// A payload value written into segment `i`.
    pub(crate) fn write_at(&mut self, i: usize, v: T)
        requires
            old(self).wf(),
            i < old(self)@.len(),
        ensures
            final(self).wf(),
            final(self)@ == old(self)@.update(i as int, seg_write(old(self)@[i as int], v)),
    {
        let seg = &mut self.segs[i];
        seg.payload = Some(v);
        proof {
            assert(self@ =~= old(self)@.update(i as int, seg_write(old(self)@[i as int], v)));
            lemma_wf_update(old(self)@, i as int, seg_write(old(self)@[i as int], v));
        }
    }

    /// The name of segment `i` removed from the namespace.
    pub(crate) fn unlink_at(&mut self, i: usize)
        requires
            old(self).wf(),
            i < old(self)@.len(),
        ensures
            final(self).wf(),
            final(self)@ == old(self)@.update(i as int, seg_unlink(old(self)@[i as int])),
    {
        let seg = &mut self.segs[i];
        seg.linked = false;
        proof {
            assert(self@ =~= old(self)@.update(i as int, seg_unlink(old(self)@[i as int])));
            lemma_wf_update(old(self)@, i as int, seg_unlink(old(self)@[i as int]));
        }
    }

    /// The embedded mutex of segment `i` taken.
    pub(crate) fn lock_at(&mut self, i: usize)
        requires
            old(self).wf(),
            i < old(self)@.len(),
            !old(self)@[i as int].locked,
        ensures
            final(self).wf(),
            final(self)@ == old(self)@.update(i as int, seg_lock(old(self)@[i as int])),
    {
        let seg = &mut self.segs[i];
        seg.locked = true;
        proof {
            assert(self@ =~= old(self)@.update(i as int, seg_lock(old(self)@[i as int])));
            lemma_wf_update(old(self)@, i as int, seg_lock(old(self)@[i as int]));
        }
    }

    /// The embedded mutex of segment `i` released.
    pub(crate) fn unlock_at(&mut self, i: usize)
        requires
            old(self).wf(),
            i < old(self)@.len(),
            old(self)@[i as int].locked,
        ensures
            final(self).wf(),
            final(self)@ == old(self)@.update(i as int, seg_unlock(old(self)@[i as int])),
    {
        let seg = &mut self.segs[i];
        seg.locked = false;
        proof {
            assert(self@ =~= old(self)@.update(i as int, seg_unlock(old(self)@[i as int])));
            lemma_wf_update(old(self)@, i as int, seg_unlock(old(self)@[i as int]));
        }
    }

    /// A reference to the payload of segment `i`.
    pub(crate) fn payload_ref<'a>(&'a self, i: usize) -> (r: &'a T)
        requires
            i < self@.len(),
            self@[i as int].payload is Some,
        ensures
            self@[i as int].payload == Some(*r),
    {
        match &self.segs[i].payload {
            Some(v) => v,
            None => unreached(),
        }
    }

    /// The attachment counter of segment `i`, as one load sees it.
    pub(crate) fn counter_at(&self, i: usize) -> (r: usize)
        requires
            i < self@.len(),
        ensures
            r as nat == self@[i as int].counter,
    {
        self.segs[i].counter
    }
}

} // verus!
