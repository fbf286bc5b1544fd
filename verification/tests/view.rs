use spades::card::{Card, Suite, Value};
use spades::card_set::CardSet;
use spades::game::{Action, Event, Notification, Response, Status, View};
use spades::player::Player;
use spades::scoring::Bid;
use std::collections::HashSet;
use std::iter::FromIterator;

fn allowed_set(view: &View) -> HashSet<Action> {
    HashSet::from_iter(view.get_allowed_actions().into_iter())
}

#[test]
fn initial_allowed_actions() {
    let first_bidder = Player::Two;

    // The first player to bid may both see their cards and bid blind nil.
    {
        let view = View::new(first_bidder);
        let allowed_actions = allowed_set(&view);
        assert!(allowed_actions.contains(&Action::SeeCards));
        assert!(allowed_actions.contains(&Action::MakeBid(Bid::BlindNil)));
        assert_eq!(2, allowed_actions.len());
    }

    // All other players can only request to see their cards or
    // wait for it to be their turn to bid.
    let mut others = first_bidder.iter();
    others.next();
    while let Some(player) = others.next() {
        let view = View::new(player);
        let allowed_actions = allowed_set(&view);
        assert!(allowed_actions.contains(&Action::SeeCards));
        assert!(allowed_actions.contains(&Action::Wait));
        assert_eq!(2, allowed_actions.len());
    }
}

/// Every player is allowed to request to see their cards with a new game.
#[test]
fn see_cards() {
    let mut players = Player::One.iter();
    while let Some(player) = players.next() {
        let mut view = View::new(player);
        assert_eq!(None, view.get_hand());

        // request is valid
        let event = view.perform_action(Action::SeeCards).unwrap();
        assert_eq!(event, Some(Event::SeeCards));

        // handles a response with the cards well
        let hand = CardSet::suite(Suite::Spade);
        view.handle_response(Response::Cards(hand)).unwrap();

        assert_eq!(hand, view.get_hand().unwrap());
    }
}

/// Handles other players seeing their cards well and is able to
/// see their cards afterwards.
#[test]
fn see_cards_after_others() {
    let mut players = Player::One.iter();
    while let Some(player) = players.next() {
        let mut view = View::new(player);
        // all other players see their cards
        let mut others = player.iter();
        others.next();
        while let Some(other_player) = others.next() {
            view.handle_notification(Notification {
                player: other_player,
                event: Event::SeeCards,
            })
            .unwrap();
        }

        let event = view.perform_action(Action::SeeCards).unwrap();
        assert_eq!(event, Some(Event::SeeCards));

        let hand = CardSet::suite(Suite::Spade);
        view.handle_response(Response::Cards(hand)).unwrap();

        assert_eq!(hand, view.get_hand().unwrap());
    }
}

#[test]
fn view_blind_nil() {
    let mut players = Player::One.iter();
    while let Some(player) = players.next() {
        let mut view = View::new(player);

        // all previous players must bid
        let mut bidders = Player::Two.iter();
        while let Some(bid_player) = bidders.next() {
            if bid_player == player {
                break;
            }
            view.handle_notification(Notification {
                player: bid_player,
                event: Event::SeeCards,
            })
            .unwrap();
            view.handle_notification(Notification {
                player: bid_player,
                event: Event::MakeBid(Bid::Take(3)),
            })
            .unwrap();
        }

        let allowed_actions = HashSet::from_iter(
            [Action::MakeBid(Bid::BlindNil), Action::SeeCards]
                .iter()
                .copied(),
        );
        assert_eq!(allowed_actions, allowed_set(&view));

        view.perform_action(Action::MakeBid(Bid::BlindNil)).unwrap();
    }
}

#[test]
fn blind_nil_invalid_due_to_seen_cards() {
    let mut players = Player::One.iter();
    while let Some(player) = players.next() {
        let mut view = View::new(player);

        // all previous players must bid
        let mut bidders = Player::Two.iter();
        while let Some(bid_player) = bidders.next() {
            if bid_player == player {
                break;
            }
            view.handle_notification(Notification {
                player: bid_player,
                event: Event::SeeCards,
            })
            .unwrap();
            view.handle_notification(Notification {
                player: bid_player,
                event: Event::MakeBid(Bid::Take(3)),
            })
            .unwrap();
        }

        view.perform_action(Action::SeeCards).unwrap();
        view.handle_response(Response::Cards(CardSet::suite(Suite::Spade)))
            .unwrap();
        assert!(!allowed_set(&view).contains(&Action::MakeBid(Bid::BlindNil)));
        assert!(view.perform_action(Action::MakeBid(Bid::BlindNil)).is_err());
    }
}

#[test]
fn nil_accept() {
    let mut view = View::new(Player::Two);

    // see cards
    view.perform_action(Action::SeeCards).unwrap();
    view.handle_response(Response::Cards(CardSet::suite(Suite::Spade)))
        .unwrap();

    // bid nil
    view.perform_action(Action::MakeBid(Bid::Nil)).unwrap();

    // partner accepts
    view.handle_notification(Notification {
        player: view.get_player().teammate(),
        event: Event::ApprovesNil(true),
    })
    .unwrap();

    // bid was accepted
    assert_eq!(Some(Bid::Nil), view.get_bid(view.get_player()));
}

#[test]
fn nil_reject() {
    let mut view = View::new(Player::Two);

    // see cards
    view.perform_action(Action::SeeCards).unwrap();
    view.handle_response(Response::Cards(CardSet::suite(Suite::Spade)))
        .unwrap();

    // bid nil
    view.perform_action(Action::MakeBid(Bid::Nil)).unwrap();

    // partner rejects
    view.handle_notification(Notification {
        player: view.get_player().teammate(),
        event: Event::ApprovesNil(false),
    })
    .unwrap();

    // is my turn again to bid
    assert_eq!(Status::WaitingForBid(view.get_player()), view.get_status());

    // can not attempt to bid nil again
    assert!(!allowed_set(&view).contains(&Action::MakeBid(Bid::Nil)));
    assert!(view.perform_action(Action::MakeBid(Bid::Nil)).is_err());
}

#[test]
fn partner_nil_accept() {
    let mut view = View::new(Player::Four);

    // teammate sees cards and bids
    view.handle_notification(Notification {
        player: view.get_player().teammate(),
        event: Event::SeeCards,
    })
    .unwrap();
    view.handle_notification(Notification {
        player: view.get_player().teammate(),
        event: Event::MakeBid(Bid::Nil),
    })
    .unwrap();

    let allowed_actions = HashSet::from_iter(
        [Action::SeeCards, Action::AllowNil, Action::RejectNil]
            .iter()
            .copied(),
    );
    assert_eq!(allowed_actions, allowed_set(&view));

    // accept nil
    view.perform_action(Action::AllowNil).unwrap();

    assert_eq!(Some(Bid::Nil), view.get_bid(view.get_player().teammate()));
}

#[test]
fn partner_nil_reject() {
    let mut view = View::new(Player::Four);

    // teammate sees cards and bids
    view.handle_notification(Notification {
        player: view.get_player().teammate(),
        event: Event::SeeCards,
    })
    .unwrap();
    view.handle_notification(Notification {
        player: view.get_player().teammate(),
        event: Event::MakeBid(Bid::Nil),
    })
    .unwrap();

    // deny nil
    view.perform_action(Action::RejectNil).unwrap();

    assert_eq!(None, view.get_bid(view.get_player().teammate()));
}

#[test]
fn bid_compatibility_error() {
    let mut view = View::new(Player::Four);

    // everyone sees their cards
    view.perform_action(Action::SeeCards).unwrap();
    view.handle_response(Response::Cards(CardSet::suite(Suite::Spade)))
        .unwrap();
    let mut others = view.get_player().iter();
    others.next();
    while let Some(player) = others.next() {
        view.handle_notification(Notification {
            player,
            event: Event::SeeCards,
        })
        .unwrap();
    }

    // teammate bids
    view.handle_notification(Notification {
        player: view.get_player().teammate(),
        event: Event::MakeBid(Bid::Take(7)),
    })
    .unwrap();

    // opponent bids
    view.handle_notification(Notification {
        player: view.get_player().teammate().next(),
        event: Event::MakeBid(Bid::Take(3)),
    })
    .unwrap();

    // my bid
    assert!(view.perform_action(Action::MakeBid(Bid::Take(7))).is_err());
}

#[test]
fn play_card() {
    let mut view = View::new(Player::Two);

    // everyone sees their cards
    view.perform_action(Action::SeeCards).unwrap();
    view.handle_response(Response::Cards(CardSet::suite(Suite::Spade)))
        .unwrap();
    let mut others = view.get_player().iter();
    others.next();
    while let Some(player) = others.next() {
        view.handle_notification(Notification {
            player,
            event: Event::SeeCards,
        })
        .unwrap();
    }

    // everyone bids
    view.perform_action(Action::MakeBid(Bid::Take(3))).unwrap();
    let mut bidders = Player::Two.iter();
    bidders.next();
    while let Some(player) = bidders.next() {
        view.handle_notification(Notification {
            player,
            event: Event::MakeBid(Bid::Take(3)),
        })
        .unwrap();
    }

    // play a card
    view.perform_action(Action::PlayCard(Card::new(Suite::Spade, Value::Ace)))
        .unwrap();

    // opponent plays a card
    view.handle_notification(Notification {
        player: view.get_player().next(),
        event: Event::PlayCard(Card::new(Suite::Diamond, Value::King)),
    })
    .unwrap();
}

/// Possible that a player has not yet seen their cards
/// when it is their turn to play a card.
/// Only possible with a bid of blind nil.
#[test]
fn must_play_with_unseen_cards() {
    let mut view = View::new(Player::Two);

    // everyone but our player sees their cards
    let mut others = Player::Two.iter();
    others.next();
    while let Some(player) = others.next() {
        view.handle_notification(Notification {
            player,
            event: Event::SeeCards,
        })
        .unwrap();
    }

    // we bid blind nil
    view.perform_action(Action::MakeBid(Bid::BlindNil)).unwrap();

    // all other players bid
    let mut bidders = Player::Two.iter();
    bidders.next();
    while let Some(player) = bidders.next() {
        view.handle_notification(Notification {
            player,
            event: Event::MakeBid(Bid::Take(4)),
        })
        .unwrap();
    }

    // now is our turn to play
    assert_eq!(Status::WaitingForPlay(Player::Two), view.get_status());

    // but we can only request to see our cards
    let mut allowed_actions = HashSet::default();
    allowed_actions.insert(Action::SeeCards);
    assert_eq!(allowed_actions, allowed_set(&view));
}

#[test]
fn own_notification_rejected() {
    let mut view = View::new(Player::One);
    assert!(view
        .handle_notification(Notification {
            player: Player::One,
            event: Event::SeeCards,
        })
        .is_err());
}
