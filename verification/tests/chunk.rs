use media_io::chunk::{grow, ABS_MAX_READ_LEN, INIT_MAX_READ_LEN};
use media_io::MediaErrorKind;

#[test]
fn chunk_lengths_are_bounded() {
    assert_eq!(INIT_MAX_READ_LEN, 4_194_304);
    assert_eq!(ABS_MAX_READ_LEN, 1_073_741_824);
}

#[test]
fn reserved_room_is_zeroed() {
    let mut buf = vec![1u8, 2];
    let reserved = buf.try_reserve_exact(3);
    assert!(grow(&mut buf, 3, reserved).is_ok());
    assert_eq!(buf, [1, 2, 0, 0, 0]);
}

#[test]
fn a_failed_reservation_is_reported() {
    let mut buf = vec![1u8, 2];
    let reserved = buf.try_reserve_exact(usize::MAX - 2);
    let err = grow(&mut buf, 3, reserved).unwrap_err();
    assert_eq!(err.kind(), MediaErrorKind::Message("failed to allocate read buffer"));
    assert_eq!(err.as_message(), Some("failed to allocate read buffer"));
    assert_eq!(buf, [1, 2]);
}
