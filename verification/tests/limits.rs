use lapin::error::ErrorKind;
use lapin::limits::{exceeded, Budget, ReceiveLimits};

fn small() -> Budget {
    Budget::new(ReceiveLimits {
        message_bytes: 8,
        retained_bytes: 10,
        retained_messages: 2,
    })
}

#[test]
fn retains_capacity_until_last_message_is_dropped() {
    let mut b = small();
    assert!(b.reserve(9).is_err());
    let a = b.reserve(8).unwrap();
    assert!(b.reserve(3).is_err());
    let z = b.reserve(0).unwrap();
    assert!(b.reserve(0).is_err());
    b.release(a);
    b.release(z);
    assert!(b.reserve(8).is_ok());
}

#[test]
fn refusal_is_a_resource_limit_error() {
    let mut b = small();
    assert_eq!(*b.reserve(9).err().unwrap().kind(), ErrorKind::ResourceLimitExceeded);
    assert_eq!(*exceeded().kind(), ErrorKind::ResourceLimitExceeded);
}

#[test]
fn huge_request_is_refused() {
    let mut b = Budget::new(ReceiveLimits {
        message_bytes: usize::MAX,
        retained_bytes: usize::MAX,
        retained_messages: 10,
    });
    let one = b.reserve(1).unwrap();
    assert!(b.reserve(u64::MAX).is_err());
    b.release(one);
    assert!(b.reserve(u64::MAX).is_ok());
}

#[test]
fn resize_is_bounded_by_the_total_only() {
    let mut b = small();
    let mut a = b.reserve(4).unwrap();
    let z = b.reserve(0).unwrap();
    // Larger than one message may be, but within the total.
    assert!(a.resize(&mut b, 10).is_ok());
    assert!(a.resize(&mut b, 11).is_err());
    assert!(a.resize(&mut b, usize::MAX).is_err());
    assert!(a.resize(&mut b, 4).is_ok());
    b.release(z);
    assert!(b.reserve(6).is_ok());
}

#[test]
fn refused_resize_keeps_the_reservation() {
    let mut b = small();
    let mut a = b.reserve(8).unwrap();
    assert_eq!(*a.resize(&mut b, 11).unwrap_err().kind(), ErrorKind::ResourceLimitExceeded);
    assert!(b.reserve(3).is_err());
    assert!(b.reserve(2).is_ok());
}

#[test]
fn release_makes_room_for_the_same_reservation() {
    let mut b = small();
    let a = b.reserve(8).unwrap();
    assert!(b.reserve(8).is_err());
    b.release(a);
    assert!(b.reserve(8).is_ok());
}

#[test]
fn reservations_are_equal_whatever_they_count() {
    let mut b = small();
    let a = b.reserve(3).unwrap();
    let z = b.reserve(1).unwrap();
    assert!(a == z);
}
