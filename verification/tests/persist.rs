use incdec::counter::SharedCounter;
use incdec::persist::{seed, snapshot, SeedError};

#[test]
fn absent_slot_seeds_zero() {
    assert_eq!(seed(None), Ok(0));
}

#[test]
fn slot_with_a_number_seeds_it() {
    assert_eq!(seed(Some(b"42")), Ok(42));
    assert_eq!(seed(Some(b"-3")), Ok(-3));
}

#[test]
fn slot_with_anything_else_fails_the_start() {
    assert_eq!(seed(Some(b"abc")), Err(SeedError::Unparsable));
    assert_eq!(seed(Some(b"")), Err(SeedError::Unparsable));
    assert_eq!(seed(Some(b"42\n")), Err(SeedError::Unparsable));
    assert_eq!(seed(Some(b"9223372036854775808")), Err(SeedError::Unparsable));
}

#[test]
fn snapshot_is_the_decimal_text_of_the_counter() {
    let counter = SharedCounter::new(41);
    counter.add(1);
    assert_eq!(snapshot(&counter), b"42".to_vec());
}

#[test]
fn snapshot_seeds_the_same_value() {
    let values: [i64; 5] = [0, 12, -12, i64::MAX, i64::MIN];
    for v in values {
        let counter = SharedCounter::new(v);
        let slot = snapshot(&counter);
        assert_eq!(seed(Some(&slot)), Ok(v));
    }
}

#[test]
fn snapshot_follows_a_mutation() {
    let counter = SharedCounter::new(7);
    let before = snapshot(&counter);
    counter.add(-8);
    let after = snapshot(&counter);
    assert_eq!(seed(Some(&before)), Ok(7));
    assert_eq!(seed(Some(&after)), Ok(-1));
}
