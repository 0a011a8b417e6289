use framepipe::errors::SupervisionError;
use framepipe::supervisor::{Supervisor, UnitStatus};

#[test]
fn start_hands_out_distinct_handles() {
    let mut sup = Supervisor::new();
    let a = sup.start().unwrap();
    let b = sup.start().unwrap();
    assert_ne!(a, b);
    assert_eq!(sup.units.len(), 2);
    assert_eq!(sup.units[0].status, UnitStatus::Starting);
    assert_eq!(sup.units[1].status, UnitStatus::Starting);
}

#[test]
fn start_fails_when_no_handle_is_left() {
    let mut sup = Supervisor { units: Vec::new(), next_id: u64::MAX };
    assert_eq!(sup.start(), Err(SupervisionError::RegistrationFailed));
}

#[test]
fn crash_of_one_unit_leaves_the_sibling_alone() {
    let mut sup = Supervisor::new();
    let writer = sup.start().unwrap();
    let sender = sup.start().unwrap();
    sup.mark_running(writer);
    sup.mark_running(sender);

    // The sender crashes; the writer group must not be touched.
    sup.on_unit_crash(sender);
    assert_eq!(sup.units[0].id, writer);
    assert_eq!(sup.units[0].status, UnitStatus::Running);
    assert_eq!(sup.units[0].restarts, 0);
    assert_eq!(sup.units[1].id, sender);
    assert_eq!(sup.units[1].status, UnitStatus::Starting);
    assert_eq!(sup.units[1].restarts, 1);

    // And the other way round.
    sup.mark_running(sender);
    sup.on_unit_crash(writer);
    assert_eq!(sup.units[1].status, UnitStatus::Running);
    assert_eq!(sup.units[0].status, UnitStatus::Starting);
    assert_eq!(sup.units[0].restarts, 1);
}

#[test]
fn restarts_accumulate_per_unit() {
    let mut sup = Supervisor::new();
    let u = sup.start().unwrap();
    for _ in 0..3 {
        sup.mark_running(u);
        sup.on_unit_crash(u);
    }
    assert_eq!(sup.units[0].restarts, 3);
    assert_eq!(sup.units[0].status, UnitStatus::Starting);
}

#[test]
fn mark_running_touches_only_the_named_unit() {
    let mut sup = Supervisor::new();
    let a = sup.start().unwrap();
    let b = sup.start().unwrap();
    sup.mark_running(a);
    assert_eq!(sup.units[0].status, UnitStatus::Running);
    assert_eq!(sup.units[1].status, UnitStatus::Starting);
    let _ = b;
}
