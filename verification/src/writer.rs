use vstd::prelude::*;
use crate::errors::SinkError;
use crate::frame::{Frame, FrameModel};
use crate::keys::{frame_key, key_model};

verus! {

/// One call against the storage sink, as a persistence task will issue it.
#[derive(Debug, PartialEq, Eq)]
pub enum SinkOp {
    Create(Vec<u8>),
    Write(Vec<u8>),
    Flush,
    Close,
}

/// Mathematical image of a sink call.
pub enum SinkOpModel {
    Create(Seq<u8>),
    Write(Seq<u8>),
    Flush,
    Close,
}

impl View for SinkOp {
    type V = SinkOpModel;

    open spec fn view(&self) -> SinkOpModel {
        match self {
            SinkOp::Create(k) => SinkOpModel::Create(k@),
            SinkOp::Write(b) => SinkOpModel::Write(b@),
            SinkOp::Flush => SinkOpModel::Flush,
            SinkOp::Close => SinkOpModel::Close,
        }
    }
}

/// The images of a sequence of sink calls.
pub open spec fn ops_model(ops: Seq<SinkOp>) -> Seq<SinkOpModel> {
    ops.map(|i: int, op: SinkOp| op@)
}

/// The exact call plan of one persistence task for frame `f`: create the
/// sink object keyed by the frame's order, write the whole payload, flush
/// before releasing, release. Nothing else, and in that order per key.
pub open spec fn plan_model(base: Seq<u8>, f: FrameModel) -> Seq<SinkOpModel> {
    seq![
        SinkOpModel::Create(key_model(base, f.order)),
        SinkOpModel::Write(f.payload),
        SinkOpModel::Flush,
        SinkOpModel::Close,
    ]
}

/// Lay out the sink calls of the persistence task that will own `f`.
pub fn persistence_plan(base: &Vec<u8>, f: Frame) -> (plan: Vec<SinkOp>)
    ensures
        ops_model(plan@) == plan_model(base@, f@),
{
    let key = frame_key(base, f.order);
    let mut plan: Vec<SinkOp> = Vec::new();
    plan.push(SinkOp::Create(key));
    plan.push(SinkOp::Write(f.payload));
    plan.push(SinkOp::Flush);
    plan.push(SinkOp::Close);
    proof {
        assert(ops_model(plan@) =~= plan_model(base@, f@));
    }
    plan
}

/// Fan-out: one detached persistence task per dequeued frame, in dequeue
/// order. The plans are a function of the frames alone — the writer never
/// waits on the sink between dequeues, so laying out N tasks takes N steps
/// of this loop whatever the sink's per-write latency is.
pub fn fan_out(base: &Vec<u8>, frames: Vec<Frame>) -> (plans: Vec<Vec<SinkOp>>)
    ensures
        plans@.len() == frames@.len(),
        forall|i: int|
            0 <= i < frames@.len() ==> ops_model(#[trigger] plans@[i]@) == plan_model(
                base@,
                frames@[i]@,
            ),
{
    let ghost old_frames = frames@;
    let mut plans: Vec<Vec<SinkOp>> = Vec::new();
    let mut i: usize = 0;
    let n = frames.len();
    let mut rest = frames;
    while i < n
        invariant
            i <= n,
            n == i + rest@.len(),
            plans@.len() == i,
            forall|k: int|
                0 <= k < i ==> ops_model(#[trigger] plans@[k]@) == plan_model(
                    base@,
                    old_frames[k]@,
                ),
            forall|k: int| 0 <= k < rest@.len() ==> #[trigger] rest@[k] == old_frames[i + k],
        decreases n - i,
    {
        let f = rest.remove(0);
        let plan = persistence_plan(base, f);
        plans.push(plan);
        i = i + 1;
    }
    plans
}

/// Where a persistence task stands in its create/write/flush/close run.
/// Any failure aborts the task: the frame is lost, nothing is retried, and —
/// because the task is detached — the abort is invisible to the supervisor.
#[derive(Clone, Copy, Debug, PartialEq, Eq, Structural)]
pub enum TaskPhase {
    Creating,
    Writing,
    Flushing,
    Closing,
    Done,
    Aborted,
}

/// The persistence task's transition on one sink result: the phases advance
/// create → write → flush → close → done while calls succeed, the first
/// failure aborts, and the two final phases absorb.
pub open spec fn task_step_model(phase: TaskPhase, outcome: Result<(), SinkError>) -> TaskPhase {
    match (phase, outcome) {
        (TaskPhase::Creating, Ok(())) => TaskPhase::Writing,
        (TaskPhase::Writing, Ok(())) => TaskPhase::Flushing,
        (TaskPhase::Flushing, Ok(())) => TaskPhase::Closing,
        (TaskPhase::Closing, _) => TaskPhase::Done,
        (TaskPhase::Done, _) => TaskPhase::Done,
        (TaskPhase::Aborted, _) => TaskPhase::Aborted,
        (_, Err(_)) => TaskPhase::Aborted,
    }
}

/// Advance a persistence task by the result of its current sink call.
pub fn task_step(phase: TaskPhase, outcome: Result<(), SinkError>) -> (next: TaskPhase)
    ensures
        next == task_step_model(phase, outcome),
{
    match (phase, outcome) {
        (TaskPhase::Creating, Ok(())) => TaskPhase::Writing,
        (TaskPhase::Writing, Ok(())) => TaskPhase::Flushing,
        (TaskPhase::Flushing, Ok(())) => TaskPhase::Closing,
        (TaskPhase::Closing, _) => TaskPhase::Done,
        (TaskPhase::Done, _) => TaskPhase::Done,
        (TaskPhase::Aborted, _) => TaskPhase::Aborted,
        (_, Err(_)) => TaskPhase::Aborted,
    }
}

} // verus!
