use spades::card::{Card, Suite, Value};
use spades::card_set::CardSet;
use spades::player::Player;
use spades::trick::{Status, Trick};

fn collect_set(cards: &[Card]) -> CardSet {
    let vec: Vec<Card> = cards.to_vec();
    CardSet::from_cards(&vec)
}

#[test]
fn high_card_wins() {
    let mut trick = Trick::new(Player::One);
    trick
        .play_card(Player::One, Card::new(Suite::Heart, Value::Number(5)))
        .unwrap();
    trick
        .play_card(Player::Two, Card::new(Suite::Heart, Value::Number(8)))
        .unwrap();
    trick
        .play_card(Player::Three, Card::new(Suite::Heart, Value::Queen))
        .unwrap();
    trick
        .play_card(Player::Four, Card::new(Suite::Heart, Value::Number(4)))
        .unwrap();

    assert_eq!(
        trick.get_status(),
        Status::Won(Player::Three, Card::new(Suite::Heart, Value::Queen))
    )
}

#[test]
fn off_suite_never_wins() {
    let mut trick = Trick::new(Player::One);
    trick
        .play_card(Player::One, Card::new(Suite::Heart, Value::Number(2)))
        .unwrap();
    trick
        .play_card(Player::Two, Card::new(Suite::Diamond, Value::Number(10)))
        .unwrap();
    trick
        .play_card(Player::Three, Card::new(Suite::Club, Value::Ace))
        .unwrap();
    trick
        .play_card(Player::Four, Card::new(Suite::Heart, Value::Number(3)))
        .unwrap();

    assert_eq!(
        trick.get_status(),
        Status::Won(Player::Four, Card::new(Suite::Heart, Value::Number(3)))
    );
}

#[test]
fn spades_win() {
    let mut trick = Trick::new(Player::One);
    trick
        .play_card(Player::One, Card::new(Suite::Club, Value::Number(10)))
        .unwrap();
    trick
        .play_card(Player::Two, Card::new(Suite::Club, Value::Number(10)))
        .unwrap();
    trick
        .play_card(Player::Three, Card::new(Suite::Spade, Value::Number(5)))
        .unwrap();
    trick
        .play_card(Player::Four, Card::new(Suite::Spade, Value::Number(3)))
        .unwrap();

    assert_eq!(
        trick.get_status(),
        Status::Won(Player::Three, Card::new(Suite::Spade, Value::Number(5)))
    );
}

#[test]
fn trick_winner_lead_suit_example() {
    // leader Two; all four follow hearts, so the highest heart wins
    let mut trick = Trick::new(Player::Two);
    trick
        .play_card(Player::Two, Card::new(Suite::Heart, Value::Number(5)))
        .unwrap();
    trick
        .play_card(Player::Three, Card::new(Suite::Heart, Value::Number(8)))
        .unwrap();
    trick
        .play_card(Player::Four, Card::new(Suite::Heart, Value::Queen))
        .unwrap();
    trick
        .play_card(Player::One, Card::new(Suite::Heart, Value::Number(4)))
        .unwrap();

    assert_eq!(
        trick.get_status(),
        Status::Won(Player::Four, Card::new(Suite::Heart, Value::Queen))
    );
}

#[test]
fn waits_for_player() {
    let mut trick = Trick::new(Player::Three);
    assert_eq!(trick.get_status(), Status::Waiting(Player::Three));

    trick
        .play_card(Player::Three, Card::new(Suite::Diamond, Value::Number(2)))
        .unwrap();
    assert_eq!(trick.get_status(), Status::Waiting(Player::Four));

    trick
        .play_card(Player::Four, Card::new(Suite::Diamond, Value::Ace))
        .unwrap();
    assert_eq!(trick.get_status(), Status::Waiting(Player::One));

    trick
        .play_card(Player::One, Card::new(Suite::Club, Value::Number(3)))
        .unwrap();
    assert_eq!(trick.get_status(), Status::Waiting(Player::Two));
}

#[test]
fn get_suite() {
    let mut trick = Trick::new(Player::One);
    assert!(trick.get_suite().is_none());

    trick
        .play_card(Player::One, Card::new(Suite::Diamond, Value::Ace))
        .unwrap();
    assert_eq!(trick.get_suite(), Some(Suite::Diamond));

    trick
        .play_card(Player::Two, Card::new(Suite::Spade, Value::Ace))
        .unwrap();
    assert_eq!(trick.get_suite(), Some(Suite::Diamond));
}

#[test]
fn wrong_player_fails() {
    let mut starts = Player::One.iter();
    while let Some(start_player) = starts.next() {
        let mut trick = Trick::new(start_player);
        let mut wrongs = start_player.iter();
        wrongs.next();
        while let Some(wrong_player) = wrongs.next() {
            assert!(trick
                .play_card(wrong_player, Card::new(Suite::Spade, Value::Ace))
                .is_err());
        }
    }
}

#[test]
fn fifth_play_fails() {
    let mut starts = Player::One.iter();
    while let Some(start_player) = starts.next() {
        let mut trick = Trick::new(start_player);

        // fill up the trick
        let mut players = start_player.iter();
        while let Some(player) = players.next() {
            trick
                .play_card(
                    player,
                    Card::new(Suite::from_index(player.to_index()).unwrap(), Value::Ace),
                )
                .unwrap();
        }

        // any play should fail
        let mut players = start_player.iter();
        while let Some(player) = players.next() {
            assert!(trick
                .play_card(player, Card::new(Suite::Spade, Value::Number(2)))
                .is_err());
        }
    }
}

#[test]
fn get_card() {
    let mut trick = Trick::new(Player::One);
    let mut players = Player::One.iter();
    while let Some(player) = players.next() {
        assert_eq!(trick.get_card(player), None);
    }

    let card = Card::new(Suite::Spade, Value::Ace);
    trick.play_card(Player::One, card).unwrap();
    assert_eq!(trick.get_card(Player::One), Some(card));
    let mut others = Player::One.iter();
    others.next();
    while let Some(player) = others.next() {
        assert_eq!(trick.get_card(player), None);
    }
}

#[test]
fn leading_trump() {
    let trick = Trick::new(Player::One);
    let spades = collect_set(&[
        Card::new(Suite::Spade, Value::Number(2)),
        Card::new(Suite::Spade, Value::Ace),
    ]);
    let non_spades = collect_set(&[
        Card::new(Suite::Heart, Value::Number(2)),
        Card::new(Suite::Club, Value::King),
    ]);

    // can always play spades if they only have spades
    assert_eq!(spades, trick.get_playable_cards(spades, false));
    assert_eq!(spades, trick.get_playable_cards(spades, true));

    // can not play spades if they have non-spades and trump is not broken
    assert_eq!(
        non_spades,
        trick.get_playable_cards(spades.union(non_spades), false)
    );

    // can play any card if spades are broken
    assert_eq!(
        spades.union(non_spades),
        trick.get_playable_cards(spades.union(non_spades), true)
    );
}

#[test]
fn following_suite() {
    let mut trick = Trick::new(Player::One);
    trick
        .play_card(Player::One, Card::new(Suite::Heart, Value::Ace))
        .unwrap();
    let hearts = collect_set(&[
        Card::new(Suite::Heart, Value::Number(2)),
        Card::new(Suite::Heart, Value::King),
    ]);
    let non_hearts = collect_set(&[
        Card::new(Suite::Club, Value::Ace),
        Card::new(Suite::Diamond, Value::Jack),
        Card::new(Suite::Spade, Value::Number(7)),
    ]);

    // if they have hearts must play hearts
    assert_eq!(hearts, trick.get_playable_cards(hearts.union(non_hearts), true));
    assert_eq!(hearts, trick.get_playable_cards(hearts.union(non_hearts), false));

    // if they have no hearts can play anything
    assert_eq!(non_hearts, trick.get_playable_cards(non_hearts, true));
    assert_eq!(non_hearts, trick.get_playable_cards(non_hearts, false));
}
