use framepipe::frame::zero_payload;
use framepipe::sender::{sender_step, Sender, SenderEvent, SenderStatus};

#[test]
fn orders_start_at_one_and_have_no_gaps() {
    let mut s = Sender::new();
    let mut seen: Vec<u64> = Vec::new();
    for _ in 0..100 {
        let f = s.next_frame(zero_payload(1));
        seen.push(f.order);
    }
    let expected: Vec<u64> = (1..=100).collect();
    assert_eq!(seen, expected);
}

#[test]
fn frames_carry_the_given_payload() {
    let mut s = Sender::new();
    let f = s.next_frame(zero_payload(25 * 1024));
    assert_eq!(f.order, 1);
    assert_eq!(f.payload.len(), 25 * 1024);
    assert!(f.payload.iter().all(|&b| b == 0));
}

#[test]
fn zero_payload_is_all_zero() {
    let p = zero_payload(0);
    assert!(p.is_empty());
    let p = zero_payload(3);
    assert_eq!(p, vec![0u8, 0, 0]);
}

#[test]
fn sender_starts_into_its_loop() {
    assert_eq!(sender_step(SenderStatus::Starting, SenderEvent::Started), SenderStatus::Running);
}

#[test]
fn accepted_sends_keep_the_sender_running() {
    assert_eq!(
        sender_step(SenderStatus::Running, SenderEvent::SendAccepted),
        SenderStatus::Running
    );
}

#[test]
fn a_routing_error_is_fatal_to_the_sender() {
    assert_eq!(
        sender_step(SenderStatus::Running, SenderEvent::SendRejected),
        SenderStatus::Crashed
    );
}

#[test]
fn a_crashed_sender_stays_crashed_until_restarted() {
    assert_eq!(
        sender_step(SenderStatus::Crashed, SenderEvent::SendAccepted),
        SenderStatus::Crashed
    );
    assert_eq!(sender_step(SenderStatus::Crashed, SenderEvent::Started), SenderStatus::Crashed);
}
