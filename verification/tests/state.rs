use spades::game::dealer::ShuffledDealer;
use spades::game::{Event, Response, State, Status};
use spades::card_set::CardSet;
use spades::player::Player;
use spades::scoring::Bid;

fn cards_of(response: Response) -> CardSet {
    match response {
        Response::Cards(cards) => cards,
        _ => panic!("expected a hand"),
    }
}

#[test]
fn fresh_game_waits_for_bid() {
    let state: State<ShuffledDealer> = State::default();
    assert_eq!(false, state.is_game_over().unwrap());
    let view = state.create_view(Player::Two);
    assert_eq!(Status::WaitingForBid(Player::Two), view.get_status());
    assert_eq!(None, view.get_hand());
}

#[test]
fn see_cards_returns_thirteen() {
    let mut state: State<ShuffledDealer> = State::default();
    let mut players = Player::One.iter();
    while let Some(player) = players.next() {
        let (response, notification) = state.handle_event(player, Event::SeeCards);
        assert!(notification.is_some());
        assert_eq!(13, cards_of(response).len());
    }
}

#[test]
fn full_trick_through_server() {
    let mut state: State<ShuffledDealer> = State::default();

    // every player looks at their cards and bids three tricks
    let mut hands = Vec::new();
    let mut players = Player::Two.iter();
    while let Some(player) = players.next() {
        let (response, _) = state.handle_event(player, Event::SeeCards);
        hands.push((player, cards_of(response)));
        let (response, notification) = state.handle_event(player, Event::MakeBid(Bid::Take(3)));
        assert!(matches!(response, Response::Accepted));
        assert!(notification.is_some());
    }

    // each player in turn plays some legal card of their hand
    for (player, hand) in hands.iter() {
        let view = state.create_view(*player);
        assert_eq!(Status::WaitingForPlay(*player), view.get_status());
        let legal = view
            .get_trick()
            .get_playable_cards(*hand, view.is_trump_broken());
        let mut iter = legal.iter();
        let card = iter.next().expect("some card is always legal");
        let (response, notification) = state.handle_event(*player, Event::PlayCard(card));
        assert!(matches!(response, Response::Accepted), "legal card was rejected");
        assert!(notification.is_some());
    }

    // exactly one trick has been taken in total
    let view = state.create_view(Player::One);
    let mut total: u32 = 0;
    let mut players = Player::One.iter();
    while let Some(player) = players.next() {
        total += view.get_num_tricks(player) as u32;
    }
    assert_eq!(1, total);
}

#[test]
fn bid_out_of_turn_rejected_by_server() {
    let mut state: State<ShuffledDealer> = State::default();
    let (response, notification) = state.handle_event(Player::Three, Event::MakeBid(Bid::Take(3)));
    assert!(matches!(response, Response::Rejected(_)));
    assert!(notification.is_none());
}
