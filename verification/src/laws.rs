//! The protocol's laws, proved over the namespace model.
//!
//! Each proof function here states one guarantee of the design — balanced
//! attach and detach, a single initializer, no lost updates under the mutex,
//! survival of a segment that still has attachments, and the finality of a
//! forced destroy — over the same transition functions the executable
//! operations are specified with.

use crate::registry::{
    fresh_segment, has_linked, lemma_wf_update, linked_index, seg_attach, seg_detach, seg_init,
    seg_lock, seg_unlink, seg_unlock, seg_write, wf_model, SegModel,
};
use crate::ipc_arc::{spec_create_or_open, spec_open};
use vstd::prelude::*;

verus! {

/// One attaching call on a name: a create-or-open bringing a payload value,
/// or a plain open.
pub enum AttachOp<T> {
    /// A `create_or_open` call carrying the value it writes.
    Create(T),
    /// An `open` call.
    Open,
}

/// The namespace after one attaching call on `name`.
pub open spec fn apply_attach<T>(
    m: Seq<SegModel<T>>,
    name: Seq<char>,
    op: AttachOp<T>,
) -> Seq<SegModel<T>> {
    match op {
        AttachOp::Create(v) => spec_create_or_open(m, name, v),
        AttachOp::Open => spec_open(m, name),
    }
}

/// The namespace after a series of attaching calls on `name`, first first.
pub open spec fn apply_attaches<T>(
    m: Seq<SegModel<T>>,
    name: Seq<char>,
    ops: Seq<AttachOp<T>>,
) -> Seq<SegModel<T>>
    decreases ops.len(),
{
    if ops.len() == 0 {
        m
    } else {
        apply_attaches(apply_attach(m, name, ops[0]), name, ops.drop_first())
    }
}

/// The namespace after `k` detaching calls on segment `i`.
pub open spec fn apply_detaches<T>(m: Seq<SegModel<T>>, i: int, k: nat) -> Seq<SegModel<T>>
    decreases k,
{
    if k == 0 {
        m
    } else {
        apply_detaches(m.update(i, seg_detach(m[i])), i, (k - 1) as nat)
    }
}

/// In a well-formed namespace a linked segment is the only one under its
/// name, so looking the name up finds exactly it.
pub proof fn lemma_linked_index_unique<T>(m: Seq<SegModel<T>>, name: Seq<char>, i: int)
    requires
        wf_model(m),
        0 <= i < m.len(),
        m[i].linked,
        m[i].name == name,
    ensures
        has_linked(m, name),
        linked_index(m, name) == i,
{
    assert(has_linked(m, name));
    let k = linked_index(m, name);
    assert(0 <= k < m.len() && m[k].linked && m[k].name == name);
    if k != i {
        assert(m[k].name != m[i].name);
        assert(false);
    }
}

/// Appending a segment whose name is not yet linked keeps the namespace
/// well formed.
pub proof fn lemma_wf_push<T>(m: Seq<SegModel<T>>, s: SegModel<T>)
    requires
        wf_model(m),
        s.linked ==> !has_linked(m, s.name),
    ensures
        wf_model(m.push(s)),
{
    let m2 = m.push(s);
    assert forall|a: int, b: int|
        #![trigger m2[a], m2[b]]
        0 <= a < m2.len() && 0 <= b < m2.len() && a != b && m2[a].linked && m2[b].linked
            implies m2[a].name != m2[b].name by {
        if a == m.len() as int {
            assert(m2[b] == m[b]);
            if m2[a].name == m2[b].name {
                assert(has_linked(m, s.name));
            }
        } else if b == m.len() as int {
            assert(m2[a] == m[a]);
            if m2[a].name == m2[b].name {
                assert(has_linked(m, s.name));
            }
        } else {
            assert(m2[a] == m[a] && m2[b] == m[b]);
        }
    }
}

/// Every attaching call on a linked name raises its segment's counter by
/// one, initializes nothing, and leaves every other segment alone.
pub proof fn lemma_attaches_count<T>(
    m: Seq<SegModel<T>>,
    name: Seq<char>,
    ops: Seq<AttachOp<T>>,
    i: int,
)
    requires
        wf_model(m),
        0 <= i < m.len(),
        m[i].linked,
        m[i].name == name,
    ensures
        ({
            let m2 = apply_attaches(m, name, ops);
            &&& wf_model(m2)
            &&& m2.len() == m.len()
            &&& m2[i].linked
            &&& m2[i].name == name
            &&& m2[i].counter == m[i].counter + ops.len()
            &&& m2[i].init_count == m[i].init_count
            &&& forall|j: int| 0 <= j < m.len() && j != i ==> m2[j] == m[j]
        }),
    decreases ops.len(),
{
    if ops.len() == 0 {
    } else {
        lemma_linked_index_unique(m, name, i);
        let m1 = apply_attach(m, name, ops[0]);
        let s1 = match ops[0] {
            AttachOp::Create(v) => seg_write(seg_attach(m[i]), v),
            AttachOp::Open => seg_attach(m[i]),
        };
        assert(m1 == m.update(i, s1));
        lemma_wf_update(m, i, s1);
        lemma_attaches_count(m1, name, ops.drop_first(), i);
        assert(apply_attaches(m, name, ops) == apply_attaches(m1, name, ops.drop_first()));
    }
}

/// A segment whose counter holds `k` attachments is gone after `k`
/// detaches: the last one observes the one-to-zero transition and destroys
/// it, and no other segment moves.
pub proof fn lemma_detaches_drain<T>(m: Seq<SegModel<T>>, i: int, k: nat)
    requires
        wf_model(m),
        0 <= i < m.len(),
        m[i].linked,
        m[i].counter == k,
        1 <= k,
    ensures
        ({
            let m2 = apply_detaches(m, i, k);
            &&& wf_model(m2)
            &&& m2.len() == m.len()
            &&& m2[i].counter == 0
            &&& !m2[i].linked
            &&& m2[i].name == m[i].name
            &&& forall|j: int| 0 <= j < m.len() && j != i ==> m2[j] == m[j]
        }),
    decreases k,
{
    let m1 = m.update(i, seg_detach(m[i]));
    lemma_wf_update(m, i, seg_detach(m[i]));
    if k == 1 {
        assert(apply_detaches(m, i, k) == apply_detaches(m1, i, 0));
    } else {
        lemma_detaches_drain(m1, i, (k - 1) as nat);
    }
}

/// Law: however many attaching calls a fresh name sees — the creating one
/// first, then any mix of create-or-open and open — once as many detaches
/// have run, the counter is zero and the name no longer exists in the
/// namespace.
pub proof fn lemma_attach_detach_balance<T>(
    m: Seq<SegModel<T>>,
    name: Seq<char>,
    ops: Seq<AttachOp<T>>,
)
    requires
        wf_model(m),
        !has_linked(m, name),
        1 <= ops.len(),
        ops[0] is Create,
    ensures
        ({
            let ma = apply_attaches(m, name, ops);
            let i = linked_index(ma, name);
            let md = apply_detaches(ma, i, ops.len() as nat);
            &&& has_linked(ma, name)
            &&& ma[i].counter == ops.len()
            &&& md[i].counter == 0
            &&& !has_linked(md, name)
        }),
{
    let v = ops[0]->Create_0;
    let s = seg_write(seg_attach(seg_init(fresh_segment::<T>(name))), v);
    let i = m.len() as int;
    let m1 = apply_attach(m, name, ops[0]);
    assert(m1 == m.push(s));
    lemma_wf_push(m, s);
    assert(m1[i].linked && m1[i].name == name && m1[i].counter == 1 && m1[i].init_count == 1);
    lemma_attaches_count(m1, name, ops.drop_first(), i);
    let ma = apply_attaches(m, name, ops);
    assert(ma == apply_attaches(m1, name, ops.drop_first()));
    lemma_linked_index_unique(ma, name, i);
    assert(ma[i].counter == 1 + (ops.len() - 1));
    lemma_detaches_drain(ma, i, ops.len() as nat);
    let md = apply_detaches(ma, i, ops.len() as nat);
    assert forall|j: int| 0 <= j < md.len() implies !(md[j].linked && md[j].name == name) by {
        if j != i {
            assert(md[j] == ma[j]);
            assert(ma[j] == m1[j]);
            assert(m1[j] == m[j]);
            if md[j].linked && md[j].name == name {
                assert(has_linked(m, name));
            }
        }
    }
}

/// Law: among any series of create-or-open calls racing on a fresh name,
/// only the winner of the creation race initializes the mutex; after the
/// whole series the segment has been initialized exactly once.
pub proof fn lemma_single_initializer<T>(
    m: Seq<SegModel<T>>,
    name: Seq<char>,
    ops: Seq<AttachOp<T>>,
)
    requires
        wf_model(m),
        !has_linked(m, name),
        1 <= ops.len(),
        ops[0] is Create,
    ensures
        ({
            let ma = apply_attaches(m, name, ops);
            ma[linked_index(ma, name)].init_count == 1
        }),
{
    let v = ops[0]->Create_0;
    let s = seg_write(seg_attach(seg_init(fresh_segment::<T>(name))), v);
    let i = m.len() as int;
    let m1 = apply_attach(m, name, ops[0]);
    assert(m1 == m.push(s));
    lemma_wf_push(m, s);
    assert(m1[i].init_count == 1);
    lemma_attaches_count(m1, name, ops.drop_first(), i);
    let ma = apply_attaches(m, name, ops);
    assert(ma == apply_attaches(m1, name, ops.drop_first()));
    lemma_linked_index_unique(ma, name, i);
}

/// Whether an attaching call on `name` against namespace `m` observes
/// itself as the creator: it is a create-or-open and the name is still
/// free.
pub open spec fn attach_creates<T>(m: Seq<SegModel<T>>, name: Seq<char>, op: AttachOp<T>) -> bool {
    op is Create && !has_linked(m, name)
}

/// Law: in a series of attaching calls racing on a fresh name, the first
/// call is the only one that observes itself as creator; every later call
/// finds the segment pre-existing.
pub proof fn lemma_exactly_one_creator<T>(
    m: Seq<SegModel<T>>,
    name: Seq<char>,
    ops: Seq<AttachOp<T>>,
    j: int,
)
    requires
        wf_model(m),
        !has_linked(m, name),
        1 <= ops.len(),
        ops[0] is Create,
        1 <= j < ops.len(),
    ensures
        attach_creates(m, name, ops[0]),
        !attach_creates(apply_attaches(m, name, ops.take(j)), name, ops[j]),
{
    let v = ops[0]->Create_0;
    let s = seg_write(seg_attach(seg_init(fresh_segment::<T>(name))), v);
    let i = m.len() as int;
    let prefix = ops.take(j);
    assert(prefix[0] == ops[0]);
    let m1 = apply_attach(m, name, prefix[0]);
    assert(m1 == m.push(s));
    lemma_wf_push(m, s);
    lemma_attaches_count(m1, name, prefix.drop_first(), i);
    let mp = apply_attaches(m, name, prefix);
    assert(mp == apply_attaches(m1, name, prefix.drop_first()));
    assert(mp[i].linked && mp[i].name == name);
    assert(has_linked(mp, name));
}

/// One holder's whole critical section on segment `i`: take the mutex, read
/// the payload, write it back one larger, release the mutex.
pub open spec fn crit_incr(m: Seq<SegModel<int>>, i: int) -> Seq<SegModel<int>> {
    m.update(i, seg_unlock(seg_write(seg_lock(m[i]), m[i].payload->0 + 1)))
}

/// `n` critical sections in turn on segment `i`.
pub open spec fn crit_incr_n(m: Seq<SegModel<int>>, i: int, n: nat) -> Seq<SegModel<int>>
    decreases n,
{
    if n == 0 {
        m
    } else {
        crit_incr_n(crit_incr(m, i), i, (n - 1) as nat)
    }
}

/// Law: `n` holders that each take the mutex, add one to the shared payload
/// and release it end with the payload larger by exactly `n`: under mutual
/// exclusion the critical sections follow one another and no update is
/// lost.
pub proof fn lemma_no_lost_updates(m: Seq<SegModel<int>>, i: int, n: nat)
    requires
        0 <= i < m.len(),
        m[i].payload is Some,
    ensures
        ({
            let m2 = crit_incr_n(m, i, n);
            &&& m2.len() == m.len()
            &&& m2[i].payload == Some(m[i].payload->0 + n)
            &&& (1 <= n ==> !m2[i].locked)
            &&& forall|j: int| 0 <= j < m.len() && j != i ==> m2[j] == m[j]
        }),
    decreases n,
{
    if n == 0 {
    } else {
        lemma_no_lost_updates(crit_incr(m, i), i, (n - 1) as nat);
    }
}

/// Law: a detach that leaves the counter above zero does not destroy the
/// segment: the name stays linked and the payload stays put, and a later
/// open attaches to the same segment and sees that payload.
pub proof fn lemma_unlink_preserves<T>(m: Seq<SegModel<T>>, i: int)
    requires
        wf_model(m),
        0 <= i < m.len(),
        m[i].linked,
        2 <= m[i].counter,
    ensures
        ({
            let m2 = m.update(i, seg_detach(m[i]));
            let m3 = spec_open(m2, m[i].name);
            &&& m2[i].linked
            &&& m2[i].payload == m[i].payload
            &&& m2[i].counter == m[i].counter - 1
            &&& has_linked(m2, m[i].name)
            &&& m3[i].payload == m[i].payload
            &&& m3[i].counter == m[i].counter
        }),
{
    let m2 = m.update(i, seg_detach(m[i]));
    lemma_wf_update(m, i, seg_detach(m[i]));
    lemma_linked_index_unique(m2, m[i].name, i);
}

/// Law: a forced destroy removes the name whatever the counter says: no
/// later open can find the segment, and the namespace no longer changes for
/// that name.
pub proof fn lemma_force_unlink_removes<T>(m: Seq<SegModel<T>>, i: int)
    requires
        wf_model(m),
        0 <= i < m.len(),
        m[i].linked,
    ensures
        ({
            let m2 = m.update(i, seg_unlink(m[i]));
            &&& !has_linked(m2, m[i].name)
            &&& spec_open(m2, m[i].name) == m2
        }),
{
    let m2 = m.update(i, seg_unlink(m[i]));
    assert forall|j: int| 0 <= j < m2.len() implies !(m2[j].linked && m2[j].name == m[i].name) by {
        if j != i && m2[j].linked && m2[j].name == m[i].name {
            assert(m2[j] == m[j]);
            assert(m[j].name != m[i].name);
        }
    }
}

} // verus!
