use efi_async::status::Status;

const TOP_BIT: usize = 1 << (usize::BITS - 1);
const SECOND_BIT: usize = 1 << (usize::BITS - 2);

#[test]
fn success_is_no_error() {
    assert!(!Status::from_usize(0).is_error());
}

#[test]
fn warnings_are_no_errors() {
    assert!(!Status::from_usize(1).is_error());
    assert!(!Status::from_usize(7).is_error());
    assert!(!Status::from_usize(SECOND_BIT - 1).is_error());
}

#[test]
fn codes_with_the_top_bit_alone_are_errors() {
    assert!(Status::from_usize(TOP_BIT).is_error());
    assert!(Status::from_usize(TOP_BIT | 1).is_error());
    assert!(Status::from_usize(TOP_BIT | 9).is_error());
    assert!(Status::from_usize(TOP_BIT + SECOND_BIT - 1).is_error());
}

#[test]
fn codes_with_the_second_bit_are_no_errors() {
    assert!(!Status::from_usize(SECOND_BIT).is_error());
    assert!(!Status::from_usize(TOP_BIT | SECOND_BIT).is_error());
    assert!(!Status::from_usize(TOP_BIT | SECOND_BIT | 3).is_error());
    assert!(!Status::from_usize(usize::MAX).is_error());
}

#[test]
fn class_boundaries() {
    assert!(!Status::from_usize(TOP_BIT - 1).is_error());
    assert!(Status::from_usize(TOP_BIT).is_error());
    assert!(Status::from_usize(TOP_BIT + SECOND_BIT - 1).is_error());
    assert!(!Status::from_usize(TOP_BIT + SECOND_BIT).is_error());
}

#[test]
fn not_ready_is_error_six() {
    let status = Status::not_ready();
    assert_eq!(status.as_usize(), TOP_BIT | 6);
    assert_eq!(status.as_usize(), usize::MAX / 2 + 7);
    assert!(status.is_error());
}

#[test]
fn not_ready_matches_the_host_constant() {
    assert_eq!(Status::not_ready().as_usize(), r_efi::efi::Status::NOT_READY.as_usize());
}

#[test]
fn is_error_agrees_with_the_host_definition() {
    let codes = [
        0,
        1,
        6,
        SECOND_BIT,
        TOP_BIT - 1,
        TOP_BIT,
        TOP_BIT | 6,
        TOP_BIT | SECOND_BIT,
        usize::MAX,
    ];
    for code in codes {
        assert_eq!(
            Status::from_usize(code).is_error(),
            r_efi::efi::Status::from_usize(code).is_error()
        );
    }
}

#[test]
fn status_keeps_its_code() {
    assert_eq!(Status::from_usize(42).as_usize(), 42);
    assert_eq!(Status::from_usize(42), Status { code: 42 });
    assert_ne!(Status::from_usize(42), Status::from_usize(43));
}
