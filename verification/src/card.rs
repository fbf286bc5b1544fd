//! The `Card` value type together with its `Suite` and `Value` components.

use vstd::prelude::*;
use rand::seq::SliceRandom;

verus! {

/// Enumeration for the suite of a card.
#[derive(Copy, Clone, Eq, PartialEq, Hash, Debug, Structural)]
pub enum Suite {
    /// The trump suite.
    Spade,
    /// A plain suite.
    Heart,
    /// A plain suite.
    Club,
    /// A plain suite.
    Diamond,
}

impl Suite {
    /// The index of this suite in the fixed suite order.
    pub open spec fn idx(self) -> int {
        match self {
            Suite::Spade => 0,
            Suite::Heart => 1,
            Suite::Club => 2,
            Suite::Diamond => 3,
        }
    }

    /// The suite whose index is `i`, for `0 <= i < 4`.
    pub open spec fn of_idx(i: int) -> Suite {
        if i == 0 {
            Suite::Spade
        } else if i == 1 {
            Suite::Heart
        } else if i == 2 {
            Suite::Club
        } else {
            Suite::Diamond
        }
    }

    /// The character standing for this suite.
    pub open spec fn chr(self) -> char {
        match self {
            Suite::Spade => 'S',
            Suite::Heart => 'H',
            Suite::Club => 'C',
            Suite::Diamond => 'D',
        }
    }

    /// Converts a value in the range of [0, 4) to a Suite.
    pub fn from_index(index: u8) -> (r: Result<Self, String>)
        ensures
            r is Ok <==> index < 4,
            index < 4 ==> r == Result::<Self, String>::Ok(Suite::of_idx(index as int)),
    {
        match index {
            0 => Ok(Suite::Spade),
            1 => Ok(Suite::Heart),
            2 => Ok(Suite::Club),
            3 => Ok(Suite::Diamond),
            _ => Err("Invalid suite index".to_string()),
        }
    }

    /// Converts a Suite to a value in the range of [0, 4).
    pub fn to_index(self) -> (r: u8)
        ensures
            r == self.idx(),
    {
        match self {
            Suite::Spade => 0,
            Suite::Heart => 1,
            Suite::Club => 2,
            Suite::Diamond => 3,
        }
    }

    /// Creates a Suite from its character representation.
    pub fn from_char(c: char) -> (r: Result<Self, String>)
        ensures
            r is Ok <==> (c == 'S' || c == 'H' || c == 'C' || c == 'D'),
            r matches Ok(s) ==> s.chr() == c,
    {
        match c {
            'S' => Ok(Suite::Spade),
            'H' => Ok(Suite::Heart),
            'C' => Ok(Suite::Club),
            'D' => Ok(Suite::Diamond),
            _ => Err("Invalid card suite character".to_string()),
        }
    }

    /// Converts a Suite into a single character.
    pub fn to_char(self) -> (r: char)
        ensures
            r == self.chr(),
    {
        match self {
            Suite::Spade => 'S',
            Suite::Heart => 'H',
            Suite::Club => 'C',
            Suite::Diamond => 'D',
        }
    }
}

/// Enumeration for the value of a card.
///
/// The values are ordered as 2, ..., 10, Jack, Queen, King, Ace.
#[derive(Copy, Clone, Eq, PartialEq, PartialOrd, Ord, Hash, Debug, Structural)]
pub enum Value {
    /// The inner number is in the range of [2, 10].
    Number(u8),
    /// The value above 10.
    Jack,
    /// The value above Jack.
    Queen,
    /// The value above Queen.
    King,
    /// The highest value.
    Ace,
}

impl Value {
    /// A value is well formed when a `Number` card carries a number
    /// in the range of [2, 10].
    pub open spec fn wf(self) -> bool {
        match self {
            Value::Number(n) => 2 <= n <= 10,
            _ => true,
        }
    }

    /// The index of this value in the fixed value order: 2 has index 0
    /// and Ace has index 12.
    pub open spec fn idx(self) -> int {
        match self {
            Value::Number(n) => n - 2,
            Value::Jack => 9,
            Value::Queen => 10,
            Value::King => 11,
            Value::Ace => 12,
        }
    }

    /// The value whose index is `i`, for `0 <= i < 13`.
    pub open spec fn of_idx(i: int) -> Value {
        if 0 <= i <= 8 {
            Value::Number((i + 2) as u8)
        } else if i == 9 {
            Value::Jack
        } else if i == 10 {
            Value::Queen
        } else if i == 11 {
            Value::King
        } else {
            Value::Ace
        }
    }

    /// The character standing for this value.
    pub open spec fn chr(self) -> char {
        match self {
            Value::Number(n) =>
                if n == 2 { '2' } else if n == 3 { '3' } else if n == 4 { '4' }
                else if n == 5 { '5' } else if n == 6 { '6' } else if n == 7 { '7' }
                else if n == 8 { '8' } else if n == 9 { '9' } else { 'X' },
            Value::Jack => 'J',
            Value::Queen => 'Q',
            Value::King => 'K',
            Value::Ace => 'A',
        }
    }

    /// Converts a number in the range of [0, 13) to a Value.
    pub fn from_index(index: u8) -> (r: Result<Self, String>)
        ensures
            r is Ok <==> index < 13,
            index < 13 ==> r == Result::<Self, String>::Ok(Value::of_idx(index as int)),
            r matches Ok(v) ==> v.wf() && v.idx() == index,
    {
        match index {
            0..=8 => Ok(Value::Number(index + 2)),
            9 => Ok(Value::Jack),
            10 => Ok(Value::Queen),
            11 => Ok(Value::King),
            12 => Ok(Value::Ace),
            _ => Err("Invalid card value index".to_string()),
        }
    }

    /// Converts a Value into a number in the range of [0, 13).
    pub fn to_index(self) -> (r: u8)
        requires
            self.wf(),
        ensures
            r == self.idx(),
            r < 13,
    {
        match self {
            Value::Number(number) => number - 2,
            Value::Jack => 9,
            Value::Queen => 10,
            Value::King => 11,
            Value::Ace => 12,
        }
    }

    /// Converts a character into a Value.
    pub fn from_char(c: char) -> (r: Result<Self, String>)
        ensures
            r is Ok <==> (c == '2' || c == '3' || c == '4' || c == '5' || c == '6'
                || c == '7' || c == '8' || c == '9' || c == 'X' || c == 'J' || c == 'Q'
                || c == 'K' || c == 'A'),
            r matches Ok(v) ==> v.wf() && v.chr() == c,
    {
        match c {
            '2' => Ok(Value::Number(2)),
            '3' => Ok(Value::Number(3)),
            '4' => Ok(Value::Number(4)),
            '5' => Ok(Value::Number(5)),
            '6' => Ok(Value::Number(6)),
            '7' => Ok(Value::Number(7)),
            '8' => Ok(Value::Number(8)),
            '9' => Ok(Value::Number(9)),
            'X' => Ok(Value::Number(10)),
            'J' => Ok(Value::Jack),
            'Q' => Ok(Value::Queen),
            'K' => Ok(Value::King),
            'A' => Ok(Value::Ace),
            _ => Err("Invalid card value character".to_string()),
        }
    }

    /// Converts a Value into its single character representation.
    pub fn to_char(self) -> (r: char)
        requires
            self.wf(),
        ensures
            r == self.chr(),
    {
        match self {
            Value::Number(2) => '2',
            Value::Number(3) => '3',
            Value::Number(4) => '4',
            Value::Number(5) => '5',
            Value::Number(6) => '6',
            Value::Number(7) => '7',
            Value::Number(8) => '8',
            Value::Number(9) => '9',
            Value::Number(_) => 'X',
            Value::Jack => 'J',
            Value::Queen => 'Q',
            Value::King => 'K',
            Value::Ace => 'A',
        }
    }
}

/// Uniquely identifies a card within a deck.
#[derive(Debug, Copy, Clone, Eq, PartialEq, Hash, Structural)]
pub struct Card {
    /// The suite of this card.
    pub suite: Suite,
    /// The value of this card.
    pub value: Value,
}

impl Card {
    /// A card is well formed when its value is.
    pub open spec fn wf(self) -> bool {
        self.value.wf()
    }

    /// The index of this card in the range of [0, 52).
    pub open spec fn idx(self) -> int {
        self.suite.idx() * 13 + self.value.idx()
    }

    /// The card whose index is `i`, for `0 <= i < 52`.
    pub open spec fn of_idx(i: int) -> Card {
        Card { suite: Suite::of_idx(i / 13), value: Value::of_idx(i % 13) }
    }

    /// Creates a card from its suite and value.
    pub fn new(suite: Suite, value: Value) -> (r: Self)
        ensures
            r == (Card { suite, value }),
    {
        Card { suite, value }
    }

    /// Converts a number in the range of [0, 52) to a card.
    pub fn from_index(index: u8) -> (r: Result<Self, String>)
        ensures
            r is Ok <==> index < 52,
            index < 52 ==> r == Result::<Self, String>::Ok(Card::of_idx(index as int)),
            r matches Ok(c) ==> c.wf() && c.idx() == index,
    {
        if !(index < 52) {
            Err("Invalid card index".to_string())
        } else {
            proof {
                lemma_card_index_bounds(index as int);
            }
            let suite = match Suite::from_index(index / 13) {
                Ok(s) => s,
                Err(e) => { return Err(e); },
            };
            let value = match Value::from_index(index % 13) {
                Ok(v) => v,
                Err(e) => { return Err(e); },
            };
            proof {
                vstd::arithmetic::div_mod::lemma_fundamental_div_mod(index as int, 13);
            }
            Ok(Self::new(suite, value))
        }
    }

    /// Converts a card to a number in the range of [0, 52).
    pub fn to_index(self) -> (r: u8)
        requires
            self.wf(),
        ensures
            r == self.idx(),
            r < 52,
    {
        (self.suite.to_index() * 13) + self.value.to_index()
    }

    /// Creates a card from its string representation.
    pub fn from_chars(chars: [char; 2]) -> (r: Result<Self, String>)
        ensures
            r matches Ok(c) ==> c.wf() && c.suite.chr() == chars[0] && c.value.chr() == chars[1],
            r is Ok <==> ((chars[0] == 'S' || chars[0] == 'H' || chars[0] == 'C'
                || chars[0] == 'D') && (chars[1] == '2' || chars[1] == '3' || chars[1] == '4'
                || chars[1] == '5' || chars[1] == '6' || chars[1] == '7' || chars[1] == '8'
                || chars[1] == '9' || chars[1] == 'X' || chars[1] == 'J' || chars[1] == 'Q'
                || chars[1] == 'K' || chars[1] == 'A')),
    {
        let suite = match Suite::from_char(chars[0]) {
            Ok(s) => s,
            Err(e) => { return Err(e); },
        };
        let value = match Value::from_char(chars[1]) {
            Ok(v) => v,
            Err(e) => { return Err(e); },
        };
        Ok(Self::new(suite, value))
    }

    /// Converts a card to its string representation.
    pub fn to_chars(self) -> (r: [char; 2])
        requires
            self.wf(),
        ensures
            r[0] == self.suite.chr(),
            r[1] == self.value.chr(),
    {
        [self.suite.to_char(), self.value.to_char()]
    }
}

/// For an index below 52, its suite part is below 4 and its value part
/// is below 13.
pub proof fn lemma_card_index_bounds(i: int)
    requires
        0 <= i < 52,
    ensures
        0 <= i / 13 < 4,
        0 <= i % 13 < 13,
        Card::of_idx(i).wf(),
        Card::of_idx(i).idx() == i,
{
    vstd::arithmetic::div_mod::lemma_fundamental_div_mod(i, 13);
}

/// The deck in index order: the card of index `i` at position `i`.
pub open spec fn full_deck() -> Seq<Card> {
    Seq::new(52, |i: int| Card::of_idx(i))
}

/// The deck in index order has no repeated card, and every card of it is
/// well formed.
pub proof fn lemma_full_deck_distinct()
    ensures
        full_deck().len() == 52,
        full_deck().no_duplicates(),
        forall|i: int| 0 <= i < 52 ==> (#[trigger] full_deck()[i]).wf()
            && full_deck()[i].idx() == i,
{
    assert forall|i: int| 0 <= i < 52 implies (#[trigger] full_deck()[i]).wf()
        && full_deck()[i].idx() == i by {
        lemma_card_index_bounds(i);
    }
    assert forall|i: int, j: int| 0 <= i < 52 && 0 <= j < 52 && i != j
        implies full_deck()[i] != full_deck()[j] by {
        lemma_card_index_bounds(i);
        lemma_card_index_bounds(j);
    }
}

/// Relies on rand's `SliceRandom::shuffle`: a Fisher-Yates shuffle of the
/// slice in place, drawing randomness from `rand::rng()`.  It permutes the
/// elements, so the length and the multiset of cards are unchanged.
#[verifier::external_body]
fn shuffle_cards(deck: &mut Vec<Card>)
    ensures
        final(deck)@.len() == old(deck)@.len(),
        final(deck)@.to_multiset() == old(deck)@.to_multiset(),
{
    deck.shuffle(&mut rand::rng());
}

/// Makes a randomly shuffled deck: the 52 distinct cards in some order.
pub fn make_shuffled() -> (r: Vec<Card>)
    ensures
        r@.len() == 52,
        r@.to_multiset() == full_deck().to_multiset(),
        r@.no_duplicates(),
        forall|i: int| 0 <= i < 52 ==> (#[trigger] r@[i]).wf(),
{
    let mut vec: Vec<Card> = Vec::new();
    let mut i: u8 = 0;
    while i < 52
        invariant
            vec@.len() == i,
            i <= 52,
            forall|j: int| 0 <= j < i ==> #[trigger] vec@[j] == Card::of_idx(j),
        decreases 52 - i,
    {
        let card = match Card::from_index(i) {
            Ok(c) => c,
            Err(_) => vstd::pervasive::unreached(),
        };
        vec.push(card);
        i += 1;
    }
    proof {
        assert(vec@ =~= full_deck());
    }
    shuffle_cards(&mut vec);
    proof {
        broadcast use vstd::seq_lib::group_to_multiset_ensures;

        lemma_full_deck_distinct();
        full_deck().lemma_multiset_has_no_duplicates();
        vec@.lemma_multiset_has_no_duplicates_conv();
        assert forall|i: int| 0 <= i < 52 implies (#[trigger] vec@[i]).wf() by {
            assert(vec@.contains(vec@[i]));
            assert(vec@.to_multiset().count(vec@[i]) > 0);
            assert(full_deck().contains(vec@[i]));
            let k = choose|k: int| 0 <= k < full_deck().len() && full_deck()[k] == vec@[i];
            lemma_card_index_bounds(k);
        }
    }
    vec
}

/// Index round trip: a well-formed card is recovered from its own index.
pub proof fn lemma_card_of_own_index(c: Card)
    requires
        c.wf(),
    ensures
        0 <= c.idx() < 52,
        Card::of_idx(c.idx()) == c,
{
    vstd::arithmetic::div_mod::lemma_fundamental_div_mod(c.idx(), 13);
}

} // verus!
