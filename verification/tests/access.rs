use qir_generator::Access;

#[test]
fn readers_share_and_writers_are_alone() {
    assert!(Access::Idle.is_readable());
    assert!(Access::Idle.is_writable());
    assert!(Access::Shared(1).is_readable());
    assert!(!Access::Shared(1).is_writable());
    assert!(!Access::Exclusive.is_readable());
    assert!(!Access::Exclusive.is_writable());
}

#[test]
fn readers_are_counted() {
    assert_eq!(Access::Idle.admit_reader(), Some(Access::Shared(1)));
    assert_eq!(Access::Shared(1).admit_reader(), Some(Access::Shared(2)));
    assert_eq!(Access::Shared(u64::MAX - 1).admit_reader(), Some(Access::Shared(u64::MAX)));
    assert_eq!(Access::Shared(u64::MAX).admit_reader(), None);
    assert_eq!(Access::Exclusive.admit_reader(), None);
}

#[test]
fn a_writer_comes_in_only_when_nobody_holds() {
    assert_eq!(Access::Idle.admit_writer(), Some(Access::Exclusive));
    assert_eq!(Access::Shared(1).admit_writer(), None);
    assert_eq!(Access::Exclusive.admit_writer(), None);
}

#[test]
fn release_undoes_one_hold() {
    assert_eq!(Access::Shared(2).release(), Access::Shared(1));
    assert_eq!(Access::Shared(1).release(), Access::Idle);
    assert_eq!(Access::Exclusive.release(), Access::Idle);
    assert_eq!(Access::Idle.release(), Access::Idle);
}
