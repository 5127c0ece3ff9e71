use questcraft_core::render::renderer::{
    device_queue_family_index, map_wait_error, require_running, AcquireError, FrameRing,
    PollError, RenderingError, WaitError, VIEW_MASK,
};

#[test]
fn frames_are_only_begun_while_running() {
    assert_eq!(require_running(true), Ok(()));
    assert_eq!(require_running(false), Err(RenderingError::Sleeping));
}

#[test]
fn wait_errors_map_to_rendering_errors() {
    assert_eq!(map_wait_error(WaitError::Sleeping), RenderingError::Sleeping);
    assert_eq!(map_wait_error(WaitError::DriverError), RenderingError::DriverError);
}

#[test]
fn error_enums_compare() {
    assert_ne!(RenderingError::FailedToEndStream, RenderingError::DriverError);
    assert_eq!(AcquireError::DriverError, AcquireError::DriverError);
    assert_ne!(PollError::Exiting, PollError::LossPending);
    assert_ne!(PollError::Recenter, PollError::Exiting);
}

#[test]
fn frame_ring_cycles_through_slots() {
    let mut r = FrameRing::new(3);
    assert_eq!(r.max_frames_in_flight(), 3);
    let mut seen = Vec::new();
    for _ in 0..7 {
        seen.push(r.frame_in_flight());
        r.advance();
    }
    assert_eq!(seen, vec![0, 1, 2, 0, 1, 2, 0]);
    assert_eq!(r.frame_in_flight(), 1);
}

#[test]
fn single_slot_ring_stays_at_zero() {
    let mut r = FrameRing::new(1);
    r.advance();
    r.advance();
    assert_eq!(r.frame_in_flight(), 0);
}

#[test]
fn empty_ring_starts_at_zero() {
    let r = FrameRing::new(0);
    assert_eq!(r.frame_in_flight(), 0);
    assert_eq!(r.max_frames_in_flight(), 0);
}

#[test]
fn first_queue_family_with_all_flags() {
    // graphics = 1, compute = 2, transfer = 4
    let families = vec![0b100, 0b011, 0b111];
    assert_eq!(device_queue_family_index(&families, 0b001), Some(1));
    assert_eq!(device_queue_family_index(&families, 0b110), Some(2));
    assert_eq!(device_queue_family_index(&families, 0b100), Some(0));
    assert_eq!(device_queue_family_index(&families, 0b1000), None);
    assert_eq!(device_queue_family_index(&families, 0), Some(0));
    assert_eq!(device_queue_family_index(&vec![], 1), None);
}

#[test]
fn view_mask_covers_both_eyes() {
    assert_eq!(VIEW_MASK, 0b11);
}
