use spades::card::{Card, Suite, Value};
use spades::card_set::CardSet;
use spades::game::{PublicState, Status};
use spades::player::Array;
use spades::player::Player;
use spades::scoring::{Bid, Score};

#[test]
fn bid() {
    let mut state = PublicState::default();
    let mut players = Player::Two.iter();
    while let Some(player) = players.next() {
        state.on_cards_seen(player);
        assert_eq!(state.get_status(), Status::WaitingForBid(player));
        assert_eq!(state.get_bid(player), None);
        state.on_bid(player, Bid::Take(player.to_index())).unwrap();
        assert_eq!(state.get_bid(player), Some(Bid::Take(player.to_index())));
    }
}

#[test]
fn nil_bid() {
    let mut state = PublicState::default();

    // player 2 bids nil
    state.on_cards_seen(Player::Two);
    state.on_bid(Player::Two, Bid::Nil).unwrap();

    // player 4 accepts it
    state.on_nil_approval(Player::Four, true).unwrap();
    assert_eq!(state.get_status(), Status::WaitingForBid(Player::Three));
}

#[test]
fn blind_nil_bid() {
    let mut state = PublicState::default();

    // player 2 bids blind nil
    state.on_bid(Player::Two, Bid::BlindNil).unwrap();

    // player 3 fails to bid blind nil due to already seeing their cards
    assert_eq!(state.get_status(), Status::WaitingForBid(Player::Three));
    state.on_cards_seen(Player::Three);
    assert!(state.on_bid(Player::Three, Bid::BlindNil).is_err());
}

#[test]
fn bid_out_of_turn_fails() {
    let mut state = PublicState::default();
    assert!(state.on_bid(Player::Three, Bid::Take(2)).is_err());
}

#[test]
fn double_nil_fails() {
    let mut state = PublicState::default();
    state.on_bid(Player::Two, Bid::BlindNil).unwrap();
    state.on_bid(Player::Three, Bid::Nil).unwrap();
    state.on_nil_approval(Player::Three.teammate(), true).unwrap();

    // bidding nil and blind nil when your teammate bid blind
    // nil is an error
    assert!(state.on_bid(Player::Four, Bid::Nil).is_err());
    assert!(state.on_bid(Player::Four, Bid::BlindNil).is_err());

    state.on_bid(Player::Four, Bid::Take(4)).unwrap();

    // same if the teammate bid nil
    assert!(state.on_bid(Player::One, Bid::Nil).is_err());
    assert!(state.on_bid(Player::One, Bid::BlindNil).is_err());
}

#[test]
fn double_nil_leaves_state_unchanged() {
    let mut state = PublicState::default();
    state.on_bid(Player::Two, Bid::BlindNil).unwrap();
    state.on_bid(Player::Three, Bid::Take(4)).unwrap();

    // player four's teammate (two) holds a blind nil, so four may not nil
    assert!(state.on_bid(Player::Four, Bid::Nil).is_err());
    assert_eq!(state.get_bid(Player::Four), None);
    assert_eq!(state.get_bid(Player::Two), Some(Bid::BlindNil));
    assert_eq!(state.get_status(), Status::WaitingForBid(Player::Four));
    assert!(!state.get_nil_rejected(Player::Four));
}

#[test]
fn on_card_played() {
    let mut state = PublicState::default();

    // bid arbitrarily
    let mut players = Player::Two.iter();
    while let Some(player) = players.next() {
        state.on_cards_seen(player);
        state.on_bid(player, Bid::Take(3)).unwrap();
    }

    {
        assert_eq!(Status::WaitingForPlay(Player::Two), state.get_status());
        let mut hand = CardSet::suite(Suite::Diamond);
        let card = Card::new(Suite::Diamond, Value::Ace);
        state.on_card_played(Player::Two, card, &mut hand).unwrap();
        assert_eq!(12, hand.len());
        assert!(!hand.contains(card));
    }

    {
        assert_eq!(Status::WaitingForPlay(Player::Three), state.get_status());
        let mut hand = CardSet::suite(Suite::Heart);
        let card = Card::new(Suite::Heart, Value::Number(4));
        state.on_card_played(Player::Three, card, &mut hand).unwrap();
        assert_eq!(12, hand.len());
        assert!(!hand.contains(card));
    }

    {
        assert_eq!(Status::WaitingForPlay(Player::Four), state.get_status());
        let mut hand = CardSet::suite(Suite::Spade);
        let card = Card::new(Suite::Spade, Value::Number(2));
        state.on_card_played(Player::Four, card, &mut hand).unwrap();
        assert_eq!(12, hand.len());
        assert!(!hand.contains(card));
    }

    {
        assert_eq!(Status::WaitingForPlay(Player::One), state.get_status());
        let mut hand = CardSet::suite(Suite::Club);
        let card = Card::new(Suite::Club, Value::Number(7));
        state.on_card_played(Player::One, card, &mut hand).unwrap();
        assert_eq!(12, hand.len());
        assert!(!hand.contains(card));
    }

    // player four should have won
    assert_eq!(1, state.get_num_tricks(Player::Four));
    // and therefore they are next to play
    assert_eq!(Status::WaitingForPlay(Player::Four), state.get_status());
    // no other players should have any tricks taken
    let mut others = Player::Four.iter();
    others.next();
    while let Some(player) = others.next() {
        assert_eq!(0, state.get_num_tricks(player));
    }
    // trump was broken
    assert!(state.is_trump_broken());
}

#[test]
fn unchecked_on_card_played() {
    let mut state = PublicState::default();

    // bid arbitrarily
    let mut players = Player::Two.iter();
    while let Some(player) = players.next() {
        state.on_cards_seen(player);
        state.on_bid(player, Bid::Take(3)).unwrap();
    }

    state
        .unchecked_on_card_played(Player::Two, Card::new(Suite::Diamond, Value::Number(5)))
        .unwrap();
    state
        .unchecked_on_card_played(Player::Three, Card::new(Suite::Diamond, Value::Ace))
        .unwrap();
    state
        .unchecked_on_card_played(Player::Four, Card::new(Suite::Diamond, Value::Number(4)))
        .unwrap();
    state
        .unchecked_on_card_played(Player::One, Card::new(Suite::Diamond, Value::Number(2)))
        .unwrap();

    // player three should have won
    assert_eq!(1, state.get_num_tricks(Player::Three));
    // and therefore is next to play
    assert_eq!(Status::WaitingForPlay(Player::Three), state.get_status());
    // no other players should have any tricks taken
    let mut others = Player::Three.iter();
    others.next();
    while let Some(player) = others.next() {
        assert_eq!(0, state.get_num_tricks(player));
    }
    // trump was not broken
    assert!(!state.is_trump_broken());
}

#[test]
fn end_round() {
    let mut state = PublicState::default();

    // bid arbitrarily
    let mut players = Player::Two.iter();
    while let Some(player) = players.next() {
        state.on_cards_seen(player);
        state.on_bid(player, Bid::Take(3)).unwrap();
    }

    let cards = Array::from_array([
        Card::new(Suite::Diamond, Value::Number(3)),
        Card::new(Suite::Diamond, Value::Ace),
        Card::new(Suite::Diamond, Value::Number(2)),
        Card::new(Suite::Diamond, Value::Number(4)),
    ]);

    // run 13 tricks
    for _ in 0..13 {
        let mut trick_players = Player::Two.iter();
        while let Some(player) = trick_players.next() {
            state
                .unchecked_on_card_played(player, cards.get(player))
                .unwrap();
        }
    }

    // the score should be updated
    assert_eq!([Score::new(-6, 0), Score::new(6, 7)], state.get_scores());
    // the rounds result should now have an entry
    assert_eq!(1, state.get_round_results().len());

    // now player two is the dealer, so player three bids next
    assert_eq!(Status::WaitingForBid(Player::Three), state.get_status());
}

#[test]
fn round_boundary_resets() {
    let mut state = PublicState::default();
    let mut players = Player::Two.iter();
    while let Some(player) = players.next() {
        state.on_cards_seen(player);
        state.on_bid(player, Bid::Take(3)).unwrap();
    }
    let cards = Array::from_array([
        Card::new(Suite::Diamond, Value::Number(3)),
        Card::new(Suite::Diamond, Value::Ace),
        Card::new(Suite::Diamond, Value::Number(2)),
        Card::new(Suite::Diamond, Value::Number(4)),
    ]);
    for _ in 0..13 {
        let mut trick_players = Player::Two.iter();
        while let Some(player) = trick_players.next() {
            state
                .unchecked_on_card_played(player, cards.get(player))
                .unwrap();
        }
    }

    // after the 13th trick everything round-scoped has reset
    let mut all = Player::One.iter();
    while let Some(player) = all.next() {
        assert_eq!(0, state.get_num_tricks(player));
        assert_eq!(None, state.get_bid(player));
        assert!(!state.can_see_cards(player));
        assert!(!state.get_nil_rejected(player));
    }
    assert!(!state.is_trump_broken());
    assert_eq!(1, state.get_round_results().len());
    assert_eq!(Status::WaitingForBid(Player::Three), state.get_status());
}

#[test]
fn play_at_wrong_time_fails() {
    let mut state = PublicState::default();
    let card = Card::new(Suite::Spade, Value::Ace);

    // playing during bidding is wrong
    assert!(state.unchecked_on_card_played(Player::Two, card).is_err());

    let mut players = Player::Two.iter();
    while let Some(player) = players.next() {
        state.on_cards_seen(player);
    }

    // still invalid after the cards are seen
    assert!(state.unchecked_on_card_played(Player::Two, card).is_err());

    let mut players = Player::Two.iter();
    while let Some(player) = players.next() {
        state.on_bid(player, Bid::Take(3)).unwrap();
    }

    // invalid when it is not their turn
    assert!(state.unchecked_on_card_played(Player::Three, card).is_err());
}

#[test]
fn play_card_not_in_hand_fails() {
    let mut state = PublicState::default();
    let mut players = Player::Two.iter();
    while let Some(player) = players.next() {
        state.on_cards_seen(player);
        state.on_bid(player, Bid::Take(3)).unwrap();
    }
    let mut hand = CardSet::suite(Suite::Diamond);
    let card = Card::new(Suite::Heart, Value::Ace);
    assert!(state.on_card_played(Player::Two, card, &mut hand).is_err());
    assert_eq!(13, hand.len());
}

#[test]
fn confirm_without_pending_fails() {
    let mut state = PublicState::default();
    assert!(state.on_nil_approval(Player::One, true).is_err());
    assert!(state.on_nil_approval(Player::One, false).is_err());
}

#[test]
fn wrong_partner_cannot_confirm() {
    let mut state = PublicState::default();
    state.on_cards_seen(Player::Two);
    state.on_bid(Player::Two, Bid::Nil).unwrap();

    // only player four, the bidder's partner, may answer
    assert!(state.on_nil_approval(Player::Three, true).is_err());
    assert!(state.on_nil_approval(Player::One, true).is_err());
    state.on_nil_approval(Player::Four, true).unwrap();
}

#[test]
fn blind_nil_after_nil_rejection() {
    let mut state = PublicState::default();

    // player two tries a nil without seeing their cards; partner rejects it
    state.on_bid(Player::Two, Bid::Nil).unwrap();
    state.on_nil_approval(Player::Four, false).unwrap();
    assert!(state.get_nil_rejected(Player::Two));

    // nil stays blocked for the round
    assert!(state.on_bid(Player::Two, Bid::Nil).is_err());

    // blind nil is still open while the cards stay unseen
    state.on_bid(Player::Two, Bid::BlindNil).unwrap();
    assert_eq!(Some(Bid::BlindNil), state.get_bid(Player::Two));
}

#[test]
fn illegal_card_rejected() {
    let mut state = PublicState::default();
    let mut players = Player::Two.iter();
    while let Some(player) = players.next() {
        state.on_cards_seen(player);
        state.on_bid(player, Bid::Take(3)).unwrap();
    }

    // leading trump while unbroken with off-trump cards in hand is illegal
    let mut hand = CardSet::suite(Suite::Diamond);
    let spade = Card::new(Suite::Spade, Value::Ace);
    hand.insert(spade);
    assert!(state.on_card_played(Player::Two, spade, &mut hand).is_err());
    assert_eq!(14, hand.len());
    assert_eq!(Status::WaitingForPlay(Player::Two), state.get_status());
}

#[test]
fn mercy_rule_ends_game() {
    let mut state = PublicState::default();
    let cards = Array::from_array([
        Card::new(Suite::Diamond, Value::Number(3)),
        Card::new(Suite::Diamond, Value::Ace),
        Card::new(Suite::Diamond, Value::Number(2)),
        Card::new(Suite::Diamond, Value::Number(4)),
    ]);

    // players Two and Four sweep every trick; after four rounds their lead
    // reaches fifty tens and the mercy rule ends the game
    let mut steps: u32 = 0;
    loop {
        match state.get_status() {
            Status::WaitingForBid(player) => {
                state.on_bid(player, Bid::Take(3)).unwrap();
            }
            Status::WaitingForPlay(player) => {
                state
                    .unchecked_on_card_played(player, cards.get(player))
                    .unwrap();
            }
            Status::WaitingForNilConfirmation(_) => unreachable!(),
            Status::GameOver => break,
        }
        steps += 1;
        assert!(steps < 1000, "the game should have ended");
    }

    // four full rounds were played: 4 bids and 52 plays each
    assert_eq!(4 * (4 + 52), steps);
    assert_eq!(4, state.get_round_results().len());
    let scores = state.get_scores();
    assert_eq!(-24, scores[0].get_tens());
    assert_eq!(26, scores[1].get_tens());
    assert_eq!(
        Some(1),
        spades::scoring::get_winning_team_index(scores)
    );

    // once the game is over every action is refused and changes nothing
    assert!(state
        .on_bid(Player::One, Bid::Take(3))
        .is_err());
    assert!(state
        .unchecked_on_card_played(Player::One, cards.get(Player::One))
        .is_err());
    assert_eq!(Status::GameOver, state.get_status());
}
