use spades::game::dealer::{Dealer, ShuffledDealer};
use spades::player::Player;

#[test]
fn shuffled() {
    let mut dealer = Box::new(ShuffledDealer::default());
    for _ in 0..10 {
        let hands = dealer.deal_cards();
        let mut players = Player::One.iter();
        while let Some(player) = players.next() {
            assert_eq!(13, hands.get(player).len());
            let mut others = player.iter();
            others.next();
            while let Some(other_player) = others.next() {
                let intersection = hands.get(player).intersection(hands.get(other_player));
                assert!(intersection.is_empty());
            }
        }
    }
}
