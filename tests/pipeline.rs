use bladerf_adsb::acquisition::{AcquisitionLoop, LoopAction};
use bladerf_adsb::delivery::{delivery_action, DeliveryAction};
use bladerf_adsb::frame::BUFFER_SIZE;
use bladerf_adsb::handoff::{Handoff, Received};
use bladerf_adsb::progress::{progress_line, progress_message};

fn buffer_with_valid_slots(slots: &[usize]) -> Vec<u8> {
    let mut buf = vec![0u8; BUFFER_SIZE];
    for &k in slots {
        buf[k * 16] = 0x01;
        buf[k * 16 + 2] = k as u8;
    }
    buf
}

fn drain(h: &mut Handoff) -> Vec<String> {
    let mut out = Vec::new();
    while let Received::Record(r) = h.recv() {
        out.push(r);
    }
    out
}

#[test]
fn handoff_is_first_in_first_out() {
    let mut h = Handoff::new();
    h.send("a".to_string());
    h.send("b".to_string());
    match h.recv() {
        Received::Record(r) => assert_eq!(r, "a"),
        _ => panic!("expected a record"),
    }
    h.send("c".to_string());
    assert_eq!(drain(&mut h), vec!["b".to_string(), "c".to_string()]);
    assert!(matches!(h.recv(), Received::Waiting));
    h.close();
    assert!(h.is_closed());
    assert!(matches!(h.recv(), Received::Finished));
}

#[test]
fn closed_handoff_still_delivers_what_was_queued() {
    let mut h = Handoff::new();
    h.send("x".to_string());
    h.close();
    assert!(matches!(h.recv(), Received::Record(_)));
    assert!(matches!(h.recv(), Received::Finished));
}

#[test]
fn records_enter_delivery_in_extraction_order() {
    let mut h = Handoff::new();
    let mut l = AcquisitionLoop::new(true);
    assert_eq!(l.poll(false, &mut h), LoopAction::Acquire);
    assert_eq!(l.process_buffer(&buffer_with_valid_slots(&[3, 1, 200]), &mut h), 3);
    assert_eq!(l.poll(false, &mut h), LoopAction::Acquire);
    assert_eq!(l.process_buffer(&buffer_with_valid_slots(&[7]), &mut h), 1);
    assert_eq!(
        drain(&mut h),
        vec![
            "*01000000000000;\n".to_string(),
            "*03000000000000;\n".to_string(),
            "*c800000000000000000000000000;\n".to_string(),
            "*07000000000000;\n".to_string(),
        ]
    );
    assert_eq!(l.message_count(), 4);
}

#[test]
fn buffer_without_frames_leaves_counter_unchanged() {
    let mut h = Handoff::new();
    let mut l = AcquisitionLoop::new(true);
    assert_eq!(l.process_buffer(&buffer_with_valid_slots(&[2]), &mut h), 1);
    assert_eq!(l.message_count(), 1);
    assert_eq!(l.process_buffer(&vec![0u8; BUFFER_SIZE], &mut h), 0);
    assert_eq!(l.message_count(), 1);
    assert_eq!(drain(&mut h).len(), 1);
}

#[test]
fn without_remote_delivery_frames_are_counted_not_sent() {
    let mut h = Handoff::new();
    let mut l = AcquisitionLoop::new(false);
    assert_eq!(l.process_buffer(&buffer_with_valid_slots(&[0, 1]), &mut h), 2);
    assert_eq!(l.message_count(), 2);
    assert!(matches!(h.recv(), Received::Waiting));
}

#[test]
fn cancellation_mid_run_finishes_current_buffer_then_stops() {
    let mut h = Handoff::new();
    let mut l = AcquisitionLoop::new(true);
    assert_eq!(l.poll(false, &mut h), LoopAction::Acquire);
    // cancellation arrives while this buffer is in hand
    let cancelled = true;
    assert_eq!(l.process_buffer(&buffer_with_valid_slots(&[4, 5, 6]), &mut h), 3);
    assert!(l.is_running());
    assert_eq!(l.poll(cancelled, &mut h), LoopAction::Shutdown);
    assert!(!l.is_running());
    assert!(h.is_closed());
    assert_eq!(drain(&mut h).len(), 3);
    assert!(matches!(h.recv(), Received::Finished));
    assert_eq!(l.poll(cancelled, &mut h), LoopAction::Finished);
    assert_eq!(l.message_count(), 3);
}

#[test]
fn short_write_warns_and_continues() {
    assert_eq!(
        delivery_action(7, Some(3)),
        DeliveryAction::WarnShortWrite { sent: 3, expected: 7 }
    );
    assert_eq!(delivery_action(7, Some(7)), DeliveryAction::Flush);
    assert_eq!(delivery_action(17, Some(17)), DeliveryAction::Flush);
    assert_eq!(delivery_action(17, Some(0)), DeliveryAction::WarnShortWrite { sent: 0, expected: 17 });
}

#[test]
fn failed_write_aborts() {
    assert_eq!(delivery_action(17, None), DeliveryAction::Abort);
}

#[test]
fn progress_groups_count_by_thousands() {
    assert_eq!(progress_message(12345), "Processing message 12,345");
    assert_eq!(progress_message(7), "Processing message 7");
    assert_eq!(progress_message(1234567), "Processing message 1,234,567");
    assert_eq!(progress_line("9"), "Processing message 9");
}

#[test]
fn loop_progress_reflects_frames_counted() {
    let mut h = Handoff::new();
    let mut l = AcquisitionLoop::new(false);
    let all: Vec<usize> = (0..256).collect();
    for _ in 0..5 {
        l.process_buffer(&buffer_with_valid_slots(&all), &mut h);
    }
    assert_eq!(l.message_count(), 1280);
    assert_eq!(l.progress(), "Processing message 1,280");
}
