use spades::player::{Player, PlayerIter};

#[test]
fn mod_round_trip_index() {
    for i in 0..4 {
        assert_eq!(i, Player::from_index(i).unwrap().to_index());
    }
}

#[test]
fn mod_ordering() {
    let ordered_pairs = [
        (Player::One, Player::Two),
        (Player::Two, Player::Three),
        (Player::Three, Player::Four),
        (Player::Four, Player::One),
    ];

    for pair in ordered_pairs.iter() {
        assert_eq!(pair.0.next(), pair.1);
        assert_eq!(pair.0, pair.1.previous());
    }
}

#[test]
fn teammate() {
    let teams = [(Player::One, Player::Three), (Player::Two, Player::Four)];

    for team in teams.iter() {
        assert_eq!(team.0.teammate(), team.1);
        assert_eq!(team.1.teammate(), team.0);
    }
}

#[test]
fn iter_starts_at_self() {
    assert_eq!(Some(Player::One), Player::One.iter().next());
    assert_eq!(Some(Player::Two), Player::Two.iter().next());
    assert_eq!(Some(Player::Three), Player::Three.iter().next());
    assert_eq!(Some(Player::Four), Player::Four.iter().next());
}

#[test]
fn start_one() {
    let mut iter = PlayerIter::new(Player::One);
    assert_eq!(iter.next(), Some(Player::One));
    assert_eq!(iter.next(), Some(Player::Two));
    assert_eq!(iter.next(), Some(Player::Three));
    assert_eq!(iter.next(), Some(Player::Four));
    assert_eq!(iter.next(), None);
}

#[test]
fn start_two() {
    let mut iter = PlayerIter::new(Player::Two);
    assert_eq!(iter.next(), Some(Player::Two));
    assert_eq!(iter.next(), Some(Player::Three));
    assert_eq!(iter.next(), Some(Player::Four));
    assert_eq!(iter.next(), Some(Player::One));
    assert_eq!(iter.next(), None);
}

#[test]
fn start_three() {
    let mut iter = PlayerIter::new(Player::Three);
    assert_eq!(iter.next(), Some(Player::Three));
    assert_eq!(iter.next(), Some(Player::Four));
    assert_eq!(iter.next(), Some(Player::One));
    assert_eq!(iter.next(), Some(Player::Two));
    assert_eq!(iter.next(), None);
}

#[test]
fn start_four() {
    let mut iter = PlayerIter::new(Player::Four);
    assert_eq!(iter.next(), Some(Player::Four));
    assert_eq!(iter.next(), Some(Player::One));
    assert_eq!(iter.next(), Some(Player::Two));
    assert_eq!(iter.next(), Some(Player::Three));
    assert_eq!(iter.next(), None);
}
