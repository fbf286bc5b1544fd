//! Contains a trait for dealing cards to players and a default implementation.

use vstd::prelude::*;
use crate::card;
use crate::card::Card;
use crate::card_set::CardSet;
use crate::player::{Array, Player};

verus! {

/// How many of the first `i` deck positions belong to the seat of index
/// `k`, dealing round-robin from the seat of index zero.
pub open spec fn spec_dealt_below(i: int, k: int) -> nat
    decreases i,
{
    if i <= 0 {
        0
    } else {
        spec_dealt_below(i - 1, k) + if (i - 1) % 4 == k { 1nat } else { 0nat }
    }
}

/// Trait for creating each player's hand.
///
/// Is split off to allow for dependency injection.  A dealer hands every
/// player a well-formed thirteen-card hand, and no card sits in two hands.
pub trait Dealer {
    /// Creates each player's hand.
    fn deal_cards(&mut self) -> (hands: Array<CardSet>)
        ensures
            forall|p: Player| (#[trigger] hands.spec_get(p)).wf(),
            forall|p: Player| (#[trigger] hands.spec_get(p)).spec_len() == 13,
            forall|p: Player, q: Player, c: Card|
                p != q && #[trigger] hands.spec_get(p).spec_contains(c)
                    ==> !(#[trigger] hands.spec_get(q).spec_contains(c)),
    ;
}

/// Default implementation of the Dealer Trait.
///
/// Uses card::make_shuffled() to deal cards.
pub struct ShuffledDealer {}

impl Default for ShuffledDealer {
    /// A fresh dealer; it carries no state.
    fn default() -> (r: Self)
        ensures
            r == (ShuffledDealer {}),
    {
        ShuffledDealer {}
    }
}

impl Dealer for ShuffledDealer {
    /// Deals a freshly shuffled deck round-robin, one card per seat in
    /// rotation, thirteen to each player.
    fn deal_cards(&mut self) -> (hands: Array<CardSet>)
    {
        let deck = card::make_shuffled();
        let mut hands = Array::<CardSet>::from_value(&CardSet::empty());
        let mut player = Player::One;
        let mut i: usize = 0;
        while i < 52
            invariant
                deck@.len() == 52,
                deck@.no_duplicates(),
                forall|j: int| 0 <= j < 52 ==> (#[trigger] deck@[j]).wf(),
                i <= 52,
                player.idx() == i as int % 4,
                forall|p: Player| (#[trigger] hands.spec_get(p)).wf(),
                forall|p: Player| (#[trigger] hands.spec_get(p)).spec_len()
                    == spec_dealt_below(i as int, p.idx()),
                forall|p: Player, c: Card| #[trigger] hands.spec_get(p).spec_contains(c)
                    <==> exists|j: int| 0 <= j < i && j % 4 == p.idx() && deck@[j] == c,
            decreases 52 - i,
        {
            let dealt = deck[i];
            let mut hand = hands.get(player);
            proof {
                if hand.spec_contains(dealt) {
                    let j = choose|j: int| 0 <= j < i && j % 4 == player.idx()
                        && deck@[j] == dealt;
                    assert(deck@[j] == deck@[i as int]);
                    assert(false);
                }
            }
            let _newly_added = hand.insert(dealt);
            hands.set(player, hand);
            proof {
                let gi = i as int;
                assert forall|p: Player, c: Card|
                    #[trigger] hands.spec_get(p).spec_contains(c)
                        <==> exists|j: int| 0 <= j < gi + 1 && j % 4 == p.idx()
                            && deck@[j] == c by {
                    if p == player {
                        if hands.spec_get(p).spec_contains(c) {
                            if c == dealt {
                                assert(0 <= gi < gi + 1 && gi % 4 == p.idx()
                                    && deck@[gi] == c);
                            } else {
                                let j = choose|j: int| 0 <= j < gi && j % 4 == p.idx()
                                    && deck@[j] == c;
                                assert(0 <= j < gi + 1 && j % 4 == p.idx() && deck@[j] == c);
                            }
                        }
                        if exists|j: int| 0 <= j < gi + 1 && j % 4 == p.idx()
                            && deck@[j] == c {
                            let j = choose|j: int| 0 <= j < gi + 1 && j % 4 == p.idx()
                                && deck@[j] == c;
                            if j == gi {
                                assert(hands.spec_get(p).spec_contains(c));
                            } else {
                                assert(0 <= j < gi && j % 4 == p.idx() && deck@[j] == c);
                            }
                        }
                    } else {
                        if exists|j: int| 0 <= j < gi + 1 && j % 4 == p.idx()
                            && deck@[j] == c {
                            let j = choose|j: int| 0 <= j < gi + 1 && j % 4 == p.idx()
                                && deck@[j] == c;
                            assert(j != gi);
                        }
                    }
                }
            }
            player = player.next();
            i += 1;
        }
        proof {
            assert forall|p: Player| (#[trigger] hands.spec_get(p)).spec_len() == 13 by {
                lemma_dealt_below_rounds(13, p.idx());
            }
            assert forall|p: Player, q: Player, c: Card|
                p != q && #[trigger] hands.spec_get(p).spec_contains(c)
                    implies !(#[trigger] hands.spec_get(q).spec_contains(c)) by {
                if hands.spec_get(q).spec_contains(c) {
                    let j = choose|j: int| 0 <= j < 52 && j % 4 == p.idx() && deck@[j] == c;
                    let j2 = choose|j: int| 0 <= j < 52 && j % 4 == q.idx() && deck@[j] == c;
                    assert(j != j2);
                    assert(deck@[j] == deck@[j2]);
                    assert(false);
                }
            }
        }
        hands
    }
}

/// Dealing `4 * m` cards round-robin hands each of the four seats `m` cards.
proof fn lemma_dealt_below_rounds(m: int, k: int)
    requires
        0 <= m,
        0 <= k < 4,
    ensures
        spec_dealt_below(4 * m, k) == m,
    decreases m,
{
    if m > 0 {
        lemma_dealt_below_rounds(m - 1, k);
        assert((4 * m - 1) % 4 == 3 && (4 * m - 2) % 4 == 2 && (4 * m - 3) % 4 == 1
            && (4 * m - 4) % 4 == 0) by (nonlinear_arith)
            requires m >= 1;
        assert(spec_dealt_below(4 * m, k) == spec_dealt_below(4 * m - 1, k)
            + if (4 * m - 1) % 4 == k { 1nat } else { 0nat });
        assert(spec_dealt_below(4 * m - 1, k) == spec_dealt_below(4 * m - 2, k)
            + if (4 * m - 2) % 4 == k { 1nat } else { 0nat });
        assert(spec_dealt_below(4 * m - 2, k) == spec_dealt_below(4 * m - 3, k)
            + if (4 * m - 3) % 4 == k { 1nat } else { 0nat });
        assert(spec_dealt_below(4 * m - 3, k) == spec_dealt_below(4 * m - 4, k)
            + if (4 * m - 4) % 4 == k { 1nat } else { 0nat });
        assert(spec_dealt_below(4 * m, k) == spec_dealt_below(4 * m - 4, k) + 1);
    }
}

} // verus!
