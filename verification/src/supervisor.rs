use vstd::prelude::*;
use crate::errors::SupervisionError;

verus! {

/// Lifecycle of a supervised unit, as the supervisor sees it. Work the unit
/// detaches (a fire-and-forget persistence task) is not a unit: its failures
/// never reach this state machine.
#[derive(Clone, Copy, Debug, PartialEq, Eq, Structural)]
pub enum UnitStatus {
    Starting,
    Running,
    Crashed,
}

/// One independently supervised unit.
#[derive(Clone, Copy, Debug, PartialEq, Eq, Structural)]
pub struct Unit {
    pub id: u64,
    pub status: UnitStatus,
    pub restarts: u64,
}

/// The root fault-containment authority: owns its units and applies a
/// one-for-one restart policy — a crashing unit is restarted without
/// touching its siblings.
pub struct Supervisor {
    pub units: Vec<Unit>,
    pub next_id: u64,
}

/// A crashed unit as it re-enters the supervision loop: back to `Starting`,
/// with one more restart on its record.
pub open spec fn restarted(u: Unit) -> Unit {
    Unit {
        id: u.id,
        status: UnitStatus::Starting,
        restarts: if u.restarts < u64::MAX {
            (u.restarts + 1) as u64
        } else {
            u.restarts
        },
    }
}

impl Supervisor {
    /// Unit handles are unique and drawn from below `next_id`.
    pub open spec fn wf(self) -> bool {
        &&& forall|i: int, j: int|
            0 <= i < j < self.units@.len() ==> self.units@[i].id != self.units@[j].id
        &&& forall|i: int| 0 <= i < self.units@.len() ==> #[trigger] self.units@[i].id < self.next_id
    }

    /// A supervisor that owns nothing yet.
    pub fn new() -> (s: Supervisor)
        ensures
            s.wf(),
            s.units@.len() == 0,
            s.next_id == 0,
    {
        Supervisor { units: Vec::new(), next_id: 0 }
    }

    /// Register one more unit to supervise and hand back its handle. This
    /// succeeds exactly while handles remain; a unit that cannot be
    /// registered is a fatal bootstrap error for the caller to surface.
    pub fn start(&mut self) -> (r: Result<u64, SupervisionError>)
        requires
            old(self).wf(),
        ensures
            final(self).wf(),
            r is Ok <==> old(self).next_id < u64::MAX,
            r is Err ==> *final(self) == *old(self) && r == Err::<u64, SupervisionError>(
                SupervisionError::RegistrationFailed,
            ),
            r is Ok ==> r.unwrap() == old(self).next_id && final(self).next_id == old(
                self,
            ).next_id + 1 && final(self).units@ == old(self).units@.push(
                Unit { id: old(self).next_id, status: UnitStatus::Starting, restarts: 0 },
            ),
    {
        if self.next_id == u64::MAX {
            return Err(SupervisionError::RegistrationFailed);
        }
        let id = self.next_id;
        self.units.push(Unit { id, status: UnitStatus::Starting, restarts: 0 });
        self.next_id = self.next_id + 1;
        Ok(id)
    }

    /// Record that the unit with handle `id` has entered its execution body.
    /// Every other unit is untouched.
    pub fn mark_running(&mut self, id: u64)
        requires
            old(self).wf(),
        ensures
            final(self).wf(),
            final(self).next_id == old(self).next_id,
            final(self).units@.len() == old(self).units@.len(),
            forall|i: int|
                0 <= i < old(self).units@.len() && old(self).units@[i].id != id
                    ==> final(self).units@[i] == old(self).units@[i],
            forall|i: int|
                0 <= i < old(self).units@.len() && old(self).units@[i].id == id
                    ==> final(self).units@[i] == (Unit {
                    id,
                    status: UnitStatus::Running,
                    restarts: old(self).units@[i].restarts,
                }),
    {
        let mut i: usize = 0;
        let n = self.units.len();
        while i < n
            invariant
                i <= n,
                n == self.units@.len(),
                self.units@.len() == old(self).units@.len(),
                self.next_id == old(self).next_id,
                self.wf(),
                forall|k: int|
                    0 <= k < self.units@.len() ==> #[trigger] self.units@[k].id == old(
                        self,
                    ).units@[k].id,
                forall|k: int|
                    i <= k < self.units@.len() ==> #[trigger] self.units@[k] == old(
                        self,
                    ).units@[k],
                forall|k: int|
                    0 <= k < i && old(self).units@[k].id != id ==> #[trigger] self.units@[k]
                        == old(self).units@[k],
                forall|k: int|
                    0 <= k < i && old(self).units@[k].id == id ==> #[trigger] self.units@[k]
                        == (Unit {
                        id,
                        status: UnitStatus::Running,
                        restarts: old(self).units@[k].restarts,
                    }),
            decreases n - i,
        {
            if self.units[i].id == id {
                let u = self.units.remove(i);
                self.units.insert(i, Unit { id, status: UnitStatus::Running, restarts: u.restarts });
                proof {
                    assert(self.units@ =~= old(self).units@.update(
                        i as int,
                        Unit { id, status: UnitStatus::Running, restarts: u.restarts },
                    ));
                }
            }
            i = i + 1;
        }
    }

    /// One-for-one fault containment: the crashed unit — and only it — is
    /// restarted; every sibling keeps exactly the state it had.
    pub fn on_unit_crash(&mut self, id: u64)
        requires
            old(self).wf(),
        ensures
            final(self).wf(),
            final(self).next_id == old(self).next_id,
            final(self).units@.len() == old(self).units@.len(),
            forall|i: int|
                0 <= i < old(self).units@.len() && old(self).units@[i].id != id
                    ==> final(self).units@[i] == old(self).units@[i],
            forall|i: int|
                0 <= i < old(self).units@.len() && old(self).units@[i].id == id
                    ==> final(self).units@[i] == restarted(old(self).units@[i]),
    {
        let mut i: usize = 0;
        let n = self.units.len();
        while i < n
            invariant
                i <= n,
                n == self.units@.len(),
                self.units@.len() == old(self).units@.len(),
                self.next_id == old(self).next_id,
                self.wf(),
                forall|k: int|
                    0 <= k < self.units@.len() ==> #[trigger] self.units@[k].id == old(
                        self,
                    ).units@[k].id,
                forall|k: int|
                    i <= k < self.units@.len() ==> #[trigger] self.units@[k] == old(
                        self,
                    ).units@[k],
                forall|k: int|
                    0 <= k < i && old(self).units@[k].id != id ==> #[trigger] self.units@[k]
                        == old(self).units@[k],
                forall|k: int|
                    0 <= k < i && old(self).units@[k].id == id ==> #[trigger] self.units@[k]
                        == restarted(old(self).units@[k]),
            decreases n - i,
        {
            if self.units[i].id == id {
                let u = self.units.remove(i);
                let r = if u.restarts < u64::MAX {
                    u.restarts + 1
                } else {
                    u.restarts
                };
                self.units.insert(i, Unit { id, status: UnitStatus::Starting, restarts: r });
                proof {
                    assert(self.units@ =~= old(self).units@.update(
                        i as int,
                        restarted(old(self).units@[i as int]),
                    ));
                }
            }
            i = i + 1;
        }
    }
}

} // verus!
