use shmfeeder::sequence::SequenceCheck;

#[test]
fn consecutive_numbers_are_accepted() {
    let mut check = SequenceCheck::new();
    assert!(check.accept(4095));
    assert!(check.accept(4096));
    assert!(!check.accept(4098));
    assert!(!check.accept(4096));
    assert_eq!((check.last_item, check.num_items), (4096, 2));
    assert!(check.accept(4097));

    let mut check = SequenceCheck::new();
    assert!(check.accept(0));
    assert!(check.accept(7));
    assert_eq!((check.last_item, check.num_items), (7, 2));
}

#[test]
fn reader_idles_after_a_second() {
    assert!(!SequenceCheck::is_idle(0));
    assert!(!SequenceCheck::is_idle(1000));
    assert!(SequenceCheck::is_idle(1001));
}
