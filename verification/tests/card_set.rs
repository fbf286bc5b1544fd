use spades::card::{Card, Suite, Value};
use spades::card_set::CardSet;

fn from_indices(indices: &[u8]) -> CardSet {
    let cards: Vec<Card> = indices
        .iter()
        .map(|x| Card::from_index(*x).unwrap())
        .collect();
    CardSet::from_cards(&cards)
}

#[test]
fn set_default() {
    let set = CardSet::empty();
    assert_eq!(0, set.len());
    assert!(set.is_empty());
}

#[test]
fn full() {
    let set = CardSet::full();
    assert_eq!(52, set.len());
    for i in 0..52 {
        assert!(set.contains(Card::from_index(i).unwrap()));
    }
}

#[test]
fn suite() {
    for i in 0..4 {
        let suite = Suite::from_index(i).unwrap();
        let set = CardSet::suite(suite);
        assert_eq!(13, set.len());
        for j in 0..13 {
            assert!(set.contains(Card::new(suite, Value::from_index(j).unwrap())));
        }
    }
}

#[test]
fn insert_one() {
    let mut set = CardSet::empty();
    let card = Card::new(Suite::Spade, Value::King);
    assert!(set.insert(card));

    assert_eq!(1, set.len());
    assert!(!set.is_empty());
    assert!(set.contains(card));
}

#[test]
fn insert_repeated() {
    let mut set = CardSet::empty();
    let card = Card::new(Suite::Diamond, Value::Number(7));
    assert!(set.insert(card));
    assert!(!set.insert(card));

    assert_eq!(1, set.len());
    assert!(!set.is_empty());
    assert!(set.contains(card));
}

#[test]
fn remove() {
    let mut set = CardSet::empty();
    for i in 5..=7 {
        assert!(set.insert(Card::from_index(i).unwrap()));
    }
    assert!(set.remove(Card::from_index(6).unwrap()));
    assert!(!set.contains(Card::from_index(6).unwrap()));
    assert_eq!(2, set.len());
}

#[test]
fn remove_missing() {
    let mut set = CardSet::empty();
    assert!(!set.remove(Card::new(Suite::Spade, Value::Jack)));
    assert_eq!(0, set.len());
    assert!(set.is_empty());
}

#[test]
fn remove_repeated() {
    let mut set = CardSet::full();

    let card = Card::from_index(20).unwrap();
    assert!(set.remove(card));
    assert!(!set.contains(card));
    assert_eq!(51, set.len());

    assert!(!set.remove(card));
    assert!(!set.contains(card));
    assert_eq!(51, set.len());
}

#[test]
fn clear() {
    let mut set = CardSet::full();
    set.clear();
    assert!(set.is_empty());
}

#[test]
fn iteration() {
    let mut hash_set = std::collections::HashSet::<Card>::default();
    let mut iter = CardSet::full().iter();
    while let Some(card) = iter.next() {
        assert!(hash_set.insert(card));
    }
    assert_eq!(52, hash_set.len());

    let mut empty_iter = CardSet::empty().iter();
    while let Some(_) = empty_iter.next() {
        unreachable!();
    }
}

#[test]
fn iteration_ascending() {
    let set = from_indices(&[40, 3, 17, 29, 0]);
    let mut iter = set.iter();
    let mut seen: u32 = 0;
    let mut last: i32 = -1;
    while let Some(card) = iter.next() {
        let index = card.to_index() as i32;
        assert!(index > last);
        last = index;
        seen += 1;
    }
    assert_eq!(5, seen);
}

#[test]
fn extend() {
    let mut set = CardSet::empty();
    let cards: Vec<Card> = [0u8, 1, 2, 0]
        .iter()
        .map(|x| Card::from_index(*x).unwrap())
        .collect();
    set.insert_all(&cards);
    assert_eq!(3, set.len());
    for i in 0..3 {
        assert!(set.contains(Card::from_index(i).unwrap()));
    }
}

#[test]
fn collect() {
    let set = from_indices(&[0, 1, 2, 0]);
    assert_eq!(3, set.len());
    for i in 0..3 {
        assert!(set.contains(Card::from_index(i).unwrap()));
    }
}

#[test]
fn equal() {
    let set1 = from_indices(&[1, 2, 3]);
    let set2 = CardSet::empty();

    assert_eq!(set1, set1);
    assert_eq!(set2, set2);
    assert_ne!(set1, set2);
}

#[test]
fn union() {
    let set1 = from_indices(&[1, 2, 3]);
    let set2 = from_indices(&[13, 1, 2]);
    let expected_result = from_indices(&[1, 2, 3, 13]);
    assert_eq!(set1.union(set2), expected_result);
}

#[test]
fn intersection() {
    let set1 = from_indices(&[1, 2, 3]);
    let set2 = from_indices(&[2, 3, 20]);
    let expected_result = from_indices(&[2, 3]);
    assert_eq!(set1.intersection(set2), expected_result);
}

#[test]
fn difference() {
    let set1 = from_indices(&[1, 2, 3, 4]);
    let set2 = from_indices(&[2, 3, 5]);
    let expected_result = from_indices(&[1, 4]);
    assert_eq!(set1.difference(set2), expected_result);
}

#[test]
fn negate() {
    let mut set = CardSet::full();
    assert!(set.remove(Card::from_index(0).unwrap()));
    let negated = set.complement();
    assert_eq!(1, negated.len());
    assert!(negated.contains(Card::from_index(0).unwrap()));
}

#[test]
fn union_len_bounded() {
    let set1 = from_indices(&[1, 2, 3, 10]);
    let set2 = from_indices(&[2, 3, 20]);
    assert!(set1.union(set2).len() <= set1.len() + set2.len());
    assert_eq!(5, set1.union(set2).len());
}

#[test]
fn complement_algebra() {
    let set = from_indices(&[0, 7, 51]);
    assert!(set.intersection(set.complement()).is_empty());
    assert_eq!(CardSet::full(), set.union(set.complement()));
}

#[test]
fn to_vec_collects_all_members_in_order() {
    let set = from_indices(&[40, 3, 17, 29, 0]);
    let cards = set.to_vec();
    assert_eq!(set.len(), cards.len());
    let mut last: i32 = -1;
    for card in cards.iter() {
        assert!(set.contains(*card));
        let index = card.to_index() as i32;
        assert!(index > last);
        last = index;
    }
    assert_eq!(0, CardSet::empty().to_vec().len());
    assert_eq!(52, CardSet::full().to_vec().len());
}
