use ipc_arc::ipc_arc::IpcArc;
use ipc_arc::registry::{Registry, SharedMemResult};
use ipc_arc::IpcError;

struct Sh {
    inner: [u8; 100],
}

#[test]
fn test_mas_writes() {
    let mut reg: Registry<Sh> = Registry::new();
    let shared_struct = Sh { inner: [99; 100] };
    let shared =
        IpcArc::create_or_open(&mut reg, format!("/crit-bench-wr").as_str(), shared_struct)
            .unwrap();
    let lock_aq = shared.lock(&mut reg);
    lock_aq.unlock(&mut reg);
    assert_eq!(reg.segs[0].payload.as_ref().unwrap().inner[0], 99);
    shared.unlink(&mut reg).unwrap();
}

#[test]
fn test_mutex_guard_explicit_unlink_all_instances() {
    const NAME: &str = "/ipcarc_unlink_all_test";
    let mut reg: Registry<i32> = Registry::new();

    let arc1 = IpcArc::create_or_open(&mut reg, NAME, 1).unwrap();
    {
        let g1 = arc1.lock(&mut reg);
        let v = *g1.get(&reg) + 1;
        g1.set(&mut reg, v);
        assert_eq!(*g1.get(&reg), 2, "arc1 incremented 1->2");
        g1.unlock(&mut reg);
    }

    let arc2 = IpcArc::open(&mut reg, NAME).unwrap();
    {
        let g2 = arc2.lock(&mut reg);
        let v = *g2.get(&reg) + 1;
        g2.set(&mut reg, v);
        assert_eq!(*g2.get(&reg), 3, "arc2 incremented 2->3");
        g2.unlock(&mut reg);
    }

    let arc1_final_counter = arc1.read_counter(&reg);
    let arc2_final_counter = arc2.read_counter(&reg);
    arc1.unlink(&mut reg).unwrap();
    arc2.unlink(&mut reg).unwrap();

    assert_eq!(
        arc1_final_counter, 2,
        "The counter should be 2 before the unlinking"
    );
    assert_eq!(
        arc2_final_counter, 2,
        "The counter should be 2 before the unlinking"
    );
}

#[test]
fn attach_detach_balance_sequential() {
    // The balance law on concrete values: one creator, then more attachers,
    // then as many detaches; the counter drains to zero and the name is gone.
    let mut reg: Registry<u64> = Registry::new();
    let creator = IpcArc::create_or_open(&mut reg, "/balance", 7).unwrap();
    let mut others: Vec<IpcArc<u64>> = Vec::new();
    for _ in 0..4 {
        others.push(IpcArc::open(&mut reg, "/balance").unwrap());
    }
    assert_eq!(creator.read_counter(&reg), 5);
    for h in others {
        h.unlink(&mut reg).unwrap();
    }
    assert_eq!(creator.read_counter(&reg), 1);
    assert!(reg.contains_name("/balance"));
    creator.unlink(&mut reg).unwrap();
    assert!(!reg.contains_name("/balance"));
}

#[test]
fn repeated_attach_cycles_drain() {
    // Many short attach/detach cycles against one long-lived attachment,
    // after which the last detach destroys the segment.
    let mut reg: Registry<u64> = Registry::new();
    let shared = IpcArc::create_or_open(&mut reg, "/hellos", 43).unwrap();
    for _ in 0..500 {
        let child = IpcArc::create_or_open(&mut reg, "/hellos", 34).unwrap();
        child.unlink(&mut reg).unwrap();
    }
    let final_counter = shared.read_counter(&reg) - 1;
    shared.unlink(&mut reg).unwrap();
    assert_eq!(final_counter, 0);
    assert!(!reg.contains_name("/hellos"));
}

#[test]
fn single_initializer_among_racers() {
    // Exactly one create_or_open call on a fresh name observes itself as
    // the creator; later ones see the segment as pre-existing.
    let mut reg: Registry<u64> = Registry::new();
    let first = IpcArc::create_or_open(&mut reg, "/race", 10).unwrap();
    let second = IpcArc::create_or_open(&mut reg, "/race", 20).unwrap();
    let third = IpcArc::create_or_open(&mut reg, "/race", 30).unwrap();
    assert!(first.created);
    assert!(!second.created);
    assert!(!third.created);
    assert_eq!(first.read_counter(&reg), 3);
    // An exclusive creation attempt on the taken name loses the race.
    assert!(matches!(reg.try_create("/race"), SharedMemResult::AlreadyExist));
    third.unlink(&mut reg).unwrap();
    second.unlink(&mut reg).unwrap();
    first.unlink(&mut reg).unwrap();
}

#[test]
fn guarded_increments_lose_no_update() {
    // N holders each add one under the guard; the payload grows by exactly N.
    let mut reg: Registry<u64> = Registry::new();
    let shared = IpcArc::create_or_open(&mut reg, "/counter", 0).unwrap();
    for _ in 0..10 {
        let g = shared.lock(&mut reg);
        let v = *g.get(&reg) + 1;
        g.set(&mut reg, v);
        g.unlock(&mut reg);
    }
    let g = shared.lock(&mut reg);
    assert_eq!(*g.get(&reg), 10);
    g.unlock(&mut reg);
    shared.unlink(&mut reg).unwrap();
}

#[test]
fn open_missing_name_not_found() {
    // open() on a name with no segment fails with NotFound and creates
    // nothing.
    let mut reg: Registry<u64> = Registry::new();
    let r = IpcArc::<u64>::open(&mut reg, "/missing");
    assert!(matches!(r, Err(IpcError::NotFound)));
    assert!(!reg.contains_name("/missing"));
    assert_eq!(reg.segs.len(), 0);
}

#[test]
fn unlink_with_remaining_attachment_keeps_segment() {
    // A detach that leaves the counter above zero does not destroy; a later
    // open still finds the segment and the payload it held.
    let mut reg: Registry<u64> = Registry::new();
    let a = IpcArc::create_or_open(&mut reg, "/keep", 5).unwrap();
    let b = IpcArc::open(&mut reg, "/keep").unwrap();
    a.unlink(&mut reg).unwrap();
    assert!(reg.contains_name("/keep"));
    assert_eq!(b.read_counter(&reg), 1);
    let c = IpcArc::open(&mut reg, "/keep").unwrap();
    assert_eq!(*c.as_ref(&reg), 5);
    c.unlink(&mut reg).unwrap();
    b.unlink(&mut reg).unwrap();
    assert!(!reg.contains_name("/keep"));
}

#[test]
fn force_unlink_removes_unconditionally() {
    // A forced destroy removes the name whatever the counter says; a later
    // open fails with NotFound.
    let mut reg: Registry<u64> = Registry::new();
    let a = IpcArc::create_or_open(&mut reg, "/gone", 1).unwrap();
    let b = IpcArc::open(&mut reg, "/gone").unwrap();
    assert_eq!(a.read_counter(&reg), 2);
    a.force_unlink(&mut reg).unwrap();
    assert!(!reg.contains_name("/gone"));
    let r = IpcArc::<u64>::open(&mut reg, "/gone");
    assert!(matches!(r, Err(IpcError::NotFound)));
    // The counter was not touched by the forced destroy.
    assert_eq!(b.read_counter(&reg), 2);
}

#[test]
fn end_to_end_two_attachers() {
    // Process A creates with 1; process B opens; A sets 2 under the guard;
    // B reads 2 and sets 3; both detach; the counter is 0 and the name is
    // gone.
    let mut reg: Registry<u64> = Registry::new();
    let a = IpcArc::create_or_open(&mut reg, "/x", 1).unwrap();
    let b = IpcArc::open(&mut reg, "/x").unwrap();
    let ga = a.lock(&mut reg);
    ga.set(&mut reg, 2);
    ga.unlock(&mut reg);
    let gb = b.lock(&mut reg);
    assert_eq!(*gb.get(&reg), 2);
    gb.set(&mut reg, 3);
    gb.unlock(&mut reg);
    let seg = a.seg;
    a.unlink(&mut reg).unwrap();
    b.unlink(&mut reg).unwrap();
    assert_eq!(reg.segs[seg].counter, 0);
    assert!(!reg.contains_name("/x"));
}

#[test]
fn create_or_open_overwrites_existing_payload() {
    // The documented hazard: a later create_or_open on an existing segment
    // overwrites the payload an earlier owner wrote.
    let mut reg: Registry<u64> = Registry::new();
    let a = IpcArc::create_or_open(&mut reg, "/hazard", 1).unwrap();
    assert_eq!(*a.as_ref(&reg), 1);
    let b = IpcArc::create_or_open(&mut reg, "/hazard", 9).unwrap();
    assert_eq!(*a.as_ref(&reg), 9);
    b.unlink(&mut reg).unwrap();
    a.unlink(&mut reg).unwrap();
}

#[test]
fn unguarded_payload_access() {
    let mut reg: Registry<u64> = Registry::new();
    let a = IpcArc::create_or_open(&mut reg, "/unguarded", 4).unwrap();
    a.as_mut(&mut reg, 6);
    assert_eq!(*a.as_ref(&reg), 6);
    a.unlink(&mut reg).unwrap();
}

#[test]
fn raw_counter_operations_move_counter_only() {
    let mut reg: Registry<u64> = Registry::new();
    let a = IpcArc::create_or_open(&mut reg, "/raw", 0).unwrap();
    a.inc_counter(&mut reg);
    a.inc_counter(&mut reg);
    assert_eq!(a.read_counter(&reg), 3);
    a.dec_counter(&mut reg);
    a.dec_counter(&mut reg);
    assert_eq!(a.read_counter(&reg), 1);
    // The raw decrement never destroys, however low the counter goes.
    a.dec_counter(&mut reg);
    assert!(reg.contains_name("/raw"));
    a.inc_counter(&mut reg);
    a.unlink(&mut reg).unwrap();
    assert!(!reg.contains_name("/raw"));
}
