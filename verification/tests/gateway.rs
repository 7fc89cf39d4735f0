use incdec::counter::SharedCounter;
use incdec::gateway::{answer_to, apply_now, Mutation, DECREMENT_SIGNAL, INCREMENT_SIGNAL};

fn applied(start: i64, message: &str) -> i64 {
    let counter = SharedCounter::new(start);
    if let Some(m) = Mutation::from_message(message.as_bytes()) {
        counter.add(m.delta());
    }
    counter.load()
}

#[test]
fn increment_message_adds_one() {
    assert_eq!(applied(5, "i"), 6);
}

#[test]
fn decrement_message_takes_one() {
    assert_eq!(applied(5, "d"), 4);
}

#[test]
fn message_without_signal_changes_nothing() {
    assert_eq!(applied(5, "xyz"), 5);
    assert_eq!(applied(5, ""), 5);
    assert_eq!(applied(5, "I D"), 5);
}

#[test]
fn increment_takes_priority() {
    assert_eq!(applied(5, "id"), 6);
    assert_eq!(applied(5, "di"), 6);
    assert_eq!(applied(5, "dddi"), 6);
}

#[test]
fn a_message_applies_at_most_one_change() {
    assert_eq!(applied(5, "iii"), 6);
    assert_eq!(applied(5, "ddd"), 4);
}

#[test]
fn signal_is_found_anywhere_in_the_message() {
    assert_eq!(Mutation::from_message(b"please increment"), Some(Mutation::Increment));
    assert_eq!(Mutation::from_message(b"xxxxdxxxx"), Some(Mutation::Decrement));
    assert_eq!(Mutation::from_message(b"xxxxxxxxd"), Some(Mutation::Decrement));
    assert_eq!(Mutation::from_message(b"lower, one"), None);
    assert_eq!(Mutation::from_message(&[0u8, 255, 105]), Some(Mutation::Increment));
}

#[test]
fn signals_are_the_letters_i_and_d() {
    assert_eq!(INCREMENT_SIGNAL, b'i');
    assert_eq!(DECREMENT_SIGNAL, b'd');
}

#[test]
fn deltas_are_plus_and_minus_one() {
    assert_eq!(Mutation::Increment.delta(), 1);
    assert_eq!(Mutation::Decrement.delta(), -1);
}

#[test]
fn one_shot_increment_answers_with_the_new_value() {
    let counter = SharedCounter::new(10);
    let (value, text) = apply_now(&counter, Mutation::Increment);
    assert_eq!(value, 11);
    assert_eq!(String::from_utf8(text).unwrap(), "11");
    assert_eq!(counter.load(), 11);
}

#[test]
fn one_shot_decrement_answers_with_the_new_value() {
    let counter = SharedCounter::new(0);
    let (value, text) = apply_now(&counter, Mutation::Decrement);
    assert_eq!(value, -1);
    assert_eq!(String::from_utf8(text).unwrap(), "-1");
    assert_eq!(counter.load(), -1);
}

#[test]
fn answer_is_the_value_left_and_its_text() {
    assert_eq!(answer_to(10, Mutation::Increment), (11, b"11".to_vec()));
    assert_eq!(answer_to(10, Mutation::Decrement), (9, b"9".to_vec()));
    assert_eq!(answer_to(0, Mutation::Decrement), (-1, b"-1".to_vec()));
    assert_eq!(
        answer_to(i64::MAX, Mutation::Increment),
        (i64::MIN, b"-9223372036854775808".to_vec())
    );
}

#[test]
fn one_shot_actions_and_messages_go_through_the_same_counter() {
    let counter = SharedCounter::new(10);
    apply_now(&counter, Mutation::Increment);
    if let Some(m) = Mutation::from_message(b"d") {
        counter.add(m.delta());
    }
    let (value, text) = apply_now(&counter, Mutation::Increment);
    assert_eq!(value, 11);
    assert_eq!(text, b"11".to_vec());
}
