use framepipe::errors::RoutingError;
use framepipe::frame::{zero_payload, Frame};
use framepipe::mailbox::Registry;
use framepipe::sender::{sender_step, Sender, SenderEvent, SenderStatus};
use framepipe::supervisor::{Supervisor, UnitStatus};
use framepipe::writer::{fan_out, SinkOp};

/// What a stub sink saw: one call, with the key it was addressed under.
#[derive(Debug, PartialEq, Eq, Clone)]
enum SinkCall {
    Create(Vec<u8>),
    Write(Vec<u8>, Vec<u8>),
    Flush(Vec<u8>),
    Close(Vec<u8>),
}

/// Run the plans against a recording stub sink, interleaving the tasks
/// round-robin one call at a time, as detached tasks may interleave.
fn run_interleaved(plans: &[Vec<SinkOp>]) -> Vec<SinkCall> {
    let mut log: Vec<SinkCall> = Vec::new();
    let mut cursors: Vec<usize> = vec![0; plans.len()];
    let mut keys: Vec<Vec<u8>> = vec![Vec::new(); plans.len()];
    let mut left = plans.iter().map(|p| p.len()).sum::<usize>();
    while left > 0 {
        for (t, plan) in plans.iter().enumerate() {
            if cursors[t] < plan.len() {
                match &plan[cursors[t]] {
                    SinkOp::Create(k) => {
                        keys[t] = k.clone();
                        log.push(SinkCall::Create(k.clone()));
                    }
                    SinkOp::Write(b) => log.push(SinkCall::Write(keys[t].clone(), b.clone())),
                    SinkOp::Flush => log.push(SinkCall::Flush(keys[t].clone())),
                    SinkOp::Close => log.push(SinkCall::Close(keys[t].clone())),
                }
                cursors[t] += 1;
                left -= 1;
            }
        }
    }
    log
}

#[test]
fn three_frames_reach_the_sink_exactly_once_each() {
    const N: usize = 25 * 1024;
    let address = b"file_writter".to_vec();
    let base = b"test".to_vec();

    // The supervisor starts the writer group, then the sender.
    let mut sup = Supervisor::new();
    let writer_unit = sup.start().unwrap();
    let sender_unit = sup.start().unwrap();
    sup.mark_running(writer_unit);
    sup.mark_running(sender_unit);

    // The writer group registers under the named address.
    let mut reg = Registry::new();
    reg.register(&address);

    // The sender emits frames 1, 2, 3 with an all-zero payload of N bytes
    // and posts each without waiting.
    let mut sender = Sender::new();
    for _ in 0..3 {
        let frame = sender.next_frame(zero_payload(N));
        reg.send_one(&address, frame).unwrap();
    }

    // The writer drains its mailbox and fans each frame out to a task.
    let frames = reg.drain(&address);
    assert_eq!(frames.len(), 3);
    let plans = fan_out(&base, frames);

    // The detached tasks run interleaved against the stub sink.
    let log = run_interleaved(&plans);

    // Exactly three creates, with keys 1, 2, 3.
    let mut created: Vec<Vec<u8>> = log
        .iter()
        .filter_map(|c| match c {
            SinkCall::Create(k) => Some(k.clone()),
            _ => None,
        })
        .collect();
    created.sort();
    assert_eq!(
        created,
        vec![b"test/1.txt".to_vec(), b"test/2.txt".to_vec(), b"test/3.txt".to_vec()]
    );

    // Per key: exactly one create, one write of N zero bytes, one flush,
    // in create -> write -> flush order.
    for key in created {
        let calls: Vec<&SinkCall> = log
            .iter()
            .filter(|c| match c {
                SinkCall::Create(k) => *k == key,
                SinkCall::Write(k, _) => *k == key,
                SinkCall::Flush(k) => *k == key,
                SinkCall::Close(k) => *k == key,
            })
            .collect();
        assert_eq!(calls.len(), 4);
        assert_eq!(*calls[0], SinkCall::Create(key.clone()));
        assert_eq!(*calls[1], SinkCall::Write(key.clone(), vec![0u8; N]));
        assert_eq!(*calls[2], SinkCall::Flush(key.clone()));
        assert_eq!(*calls[3], SinkCall::Close(key.clone()));
    }
}

#[test]
fn a_rejected_send_crashes_only_the_sender() {
    let address = b"file_writter".to_vec();

    let mut sup = Supervisor::new();
    let writer_unit = sup.start().unwrap();
    let sender_unit = sup.start().unwrap();
    sup.mark_running(writer_unit);
    sup.mark_running(sender_unit);

    // No receiver ever registered: the post fails closed ...
    let mut reg = Registry::new();
    let mut sender = Sender::new();
    let frame = sender.next_frame(zero_payload(4));
    let r = reg.send_one(&address, frame);
    assert_eq!(r, Err(RoutingError::NoReceiver));

    // ... which is fatal to the sender's actor body ...
    let status = sender_step(SenderStatus::Running, SenderEvent::SendRejected);
    assert_eq!(status, SenderStatus::Crashed);
    sup.on_unit_crash(sender_unit);

    // ... while the writer group keeps running, and the sender is restarted.
    assert_eq!(sup.units[0].id, writer_unit);
    assert_eq!(sup.units[0].status, UnitStatus::Running);
    assert_eq!(sup.units[1].status, UnitStatus::Starting);
}
