use spades::card::{make_shuffled, Card, Suite, Value};
use std::collections::HashSet;

#[test]
fn make_shuffled_has_every_card() {
    let cards = make_shuffled();
    assert_eq!(cards.len(), 52);
    let mut cards_set = HashSet::new();
    for card in cards.iter() {
        assert!(cards_set.insert(*card));
    }
}

#[test]
fn suite_round_trip_index() {
    for i in 0..4 {
        assert_eq!(i, Suite::from_index(i).unwrap().to_index());
    }
}

#[test]
fn suite_round_trip_char() {
    for c in "SHCD".chars() {
        assert_eq!(c, Suite::from_char(c).unwrap().to_char());
    }
}

#[test]
fn value_round_trip_index() {
    for i in 0..13 {
        assert_eq!(i, Value::from_index(i).unwrap().to_index());
    }
}

#[test]
fn value_round_trip_char() {
    for c in "23456789XJQKA".chars() {
        assert_eq!(c, Value::from_char(c).unwrap().to_char())
    }
}

#[test]
fn value_ordering() {
    for i in 2..10 {
        assert!(Value::Number(i) < Value::Number(i + 1));
    }
    assert!(Value::Number(10) < Value::Jack);
    assert!(Value::Jack < Value::Queen);
    assert!(Value::Queen < Value::King);
    assert!(Value::King < Value::Ace);
}

#[test]
fn card_round_trip_index() {
    for i in 0..52 {
        assert_eq!(i, Card::from_index(i).unwrap().to_index());
    }
}

#[test]
fn card_round_trip_chars() {
    let card = Card::new(Suite::Heart, Value::Queen);
    assert_eq!(card, Card::from_chars(card.to_chars()).unwrap());
}

#[test]
fn card_index_out_of_range() {
    assert!(Card::from_index(52).is_err());
    assert!(Suite::from_index(4).is_err());
    assert!(Value::from_index(13).is_err());
}

#[test]
fn card_bad_chars() {
    assert!(Card::from_chars(['Z', '5']).is_err());
    assert!(Card::from_chars(['S', '1']).is_err());
    assert!(Suite::from_char('x').is_err());
    assert!(Value::from_char('0').is_err());
}
