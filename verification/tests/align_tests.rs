use my_os::align::{align_up, align_up_checked, align_up_old};
use my_os::layout::{is_power_of_two, Layout, MAX_REQUEST_SIZE};

#[test]
fn align_up_rounds_to_the_next_multiple() {
    assert_eq!(align_up(0, 8), 0);
    assert_eq!(align_up(1, 8), 8);
    assert_eq!(align_up(8, 8), 8);
    assert_eq!(align_up(9, 8), 16);
    assert_eq!(align_up(0x1001, 0x1000), 0x2000);
    // the remainder-based variant agrees
    assert_eq!(align_up_old(13, 8), align_up(13, 8));
    assert_eq!(align_up_old(4096, 4096), 4096);
    // alignment one never moves an address
    assert_eq!(align_up_old(12345, 1), 12345);
}

#[test]
fn align_up_checked_reports_overflow() {
    assert_eq!(align_up_checked(usize::MAX - 6, 8), None);
    assert_eq!(align_up_checked(usize::MAX - 8, 8), Some(usize::MAX - 7));
    assert_eq!(align_up_checked(40, 16), Some(48));
}

#[test]
fn power_of_two_check() {
    assert!(is_power_of_two(1));
    assert!(is_power_of_two(2));
    assert!(is_power_of_two(4096));
    assert!(!is_power_of_two(0));
    assert!(!is_power_of_two(3));
    assert!(!is_power_of_two(24));
}

#[test]
fn layout_validates_its_alignment() {
    assert!(Layout::from_size_align(16, 8).is_some());
    assert!(Layout::from_size_align(0, 1).is_some());
    assert!(Layout::from_size_align(16, 0).is_none());
    assert!(Layout::from_size_align(16, 24).is_none());
    assert!(Layout::from_size_align(MAX_REQUEST_SIZE + 1, 1).is_none());
    let l = Layout::from_size_align(64, 16).unwrap();
    assert_eq!(l.size, 64);
    assert_eq!(l.align, 16);
}
