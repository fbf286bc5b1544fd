//! Bids, scores, and the pure round-scoring rules.

use vstd::prelude::*;
use crate::player::{Array, Player};

verus! {

/// A player's bid.
#[derive(Copy, Clone, Debug, Eq, PartialEq, Hash, Structural)]
pub enum Bid {
    /// A player must take no tricks.  They decided before they saw their cards.
    BlindNil,
    /// A player must take no tricks.  They decided after they saw their cards.
    Nil,
    /// The player claims that they will take the wrapped number of tricks.
    Take(u8),
}

/// Whether a bid is one of the two nil kinds.
pub open spec fn spec_is_any_nil(bid: Bid) -> bool {
    match bid {
        Bid::BlindNil => true,
        Bid::Nil => true,
        Bid::Take(_) => false,
    }
}

/// The bonus, in tens, a bid earns for being nil or blind nil.
pub open spec fn spec_nil_bonus(bid: Bid) -> int {
    match bid {
        Bid::BlindNil => 20,
        Bid::Nil => 10,
        Bid::Take(_) => 0,
    }
}

/// The number of tricks a bid claims.
pub open spec fn spec_num_tricks(bid: Bid) -> int {
    match bid {
        Bid::Take(count) => count as int,
        _ => 0,
    }
}

/// The number of tricks a team must take: the claimed total, but at
/// least the four-trick floor.
pub open spec fn spec_num_team_tricks(bid1: Bid, bid2: Bid) -> int {
    let s = spec_num_tricks(bid1) + spec_num_tricks(bid2);
    if s < 4 {
        4
    } else {
        s
    }
}

/// The bonus, in tens, a team earns for claiming ten or more tricks.
pub open spec fn spec_high_trick_bonus(bid1: Bid, bid2: Bid) -> int {
    if spec_num_tricks(bid1) + spec_num_tricks(bid2) >= 10 {
        10
    } else {
        0
    }
}

/// The value, in tens, of a team's pair of bids.
pub open spec fn spec_bid_value(bid1: Bid, bid2: Bid) -> int {
    spec_num_team_tricks(bid1, bid2) + spec_nil_bonus(bid1) + spec_nil_bonus(bid2)
        + spec_high_trick_bonus(bid1, bid2)
}

/// Whether a bid may stand beside a teammate's bid: two nil-kind bids never
/// may, and the pair's claimed tricks, summed over both bids, may not total
/// more than thirteen.
pub open spec fn spec_compat(bid: Bid, teammate_bid: Option<Bid>) -> bool {
    &&& !(teammate_bid matches Some(t) && spec_is_any_nil(t) && spec_is_any_nil(bid))
    &&& spec_num_tricks(bid) + (match teammate_bid {
        Some(t) => spec_num_tricks(t),
        None => 0,
    }) <= 13
}

/// Gets if this bid is a any kind of nil bid (nil or blind nil) or not.
pub fn is_any_nil(bid: Bid) -> (r: bool)
    ensures
        r == spec_is_any_nil(bid),
{
    match bid {
        Bid::BlindNil => true,
        Bid::Nil => true,
        Bid::Take(_) => false,
    }
}

/// Gets the bonus value in equivalent number of tricks due to a bid being
/// nil or blind nil.
pub fn nil_bonus(bid: Bid) -> (r: u8)
    ensures
        r == spec_nil_bonus(bid),
{
    match bid {
        Bid::BlindNil => 20,
        Bid::Nil => 10,
        Bid::Take(_) => 0,
    }
}

/// Gets the number of tricks that a bid will take.
pub fn num_tricks(bid: Bid) -> (r: u8)
    ensures
        r == spec_num_tricks(bid),
{
    if let Bid::Take(count) = bid {
        count
    } else {
        0
    }
}

/// Gets the number of tricks that a team will take, taking into
/// account the minimum bid of four.
pub fn num_team_tricks(bid1: Bid, bid2: Bid) -> (r: u8)
    requires
        spec_num_tricks(bid1) + spec_num_tricks(bid2) <= 255,
    ensures
        r == spec_num_team_tricks(bid1, bid2),
{
    let s = num_tricks(bid1) + num_tricks(bid2);
    if s < 4 {
        4
    } else {
        s
    }
}

/// Gets the bonus value in equivalent number of tricks due to a team
/// bidding at least 10 tricks.
pub fn high_trick_bonus(bid1: Bid, bid2: Bid) -> (r: u8)
    requires
        spec_num_tricks(bid1) + spec_num_tricks(bid2) <= 255,
    ensures
        r == spec_high_trick_bonus(bid1, bid2),
{
    if num_tricks(bid1) + num_tricks(bid2) >= 10 {
        10
    } else {
        0
    }
}

/// Gets the value of a team's bid.
///
/// This is how many points the team will make if they make their bet
/// divided by 10.  If a team bids less than 4 tricks then they effectively
/// bid the minimum of 4.
pub fn get_bid_value(bid1: Bid, bid2: Bid) -> (r: u8)
    requires
        spec_bid_value(bid1, bid2) <= 255,
    ensures
        r == spec_bid_value(bid1, bid2),
{
    num_team_tricks(bid1, bid2) + nil_bonus(bid1) + nil_bonus(bid2)
        + high_trick_bonus(bid1, bid2)
}

impl Bid {
    /// Gets the reason why this bid can not be played with another bid,
    /// or None when the two bids are compatible.
    pub fn get_compatibility_error(self, teammate_bid: Option<Bid>) -> (r: Option<&'static str>)
        ensures
            r is None <==> spec_compat(self, teammate_bid),
    {
        if let Some(teammate_bid_) = teammate_bid {
            if is_any_nil(teammate_bid_) && is_any_nil(self) {
                return Some("Both players in team can not bid nil or blind nil.");
            }
        }
        let teammate_tricks: u16 = if let Some(teammate_bid_) = teammate_bid {
            num_tricks(teammate_bid_) as u16
        } else {
            0
        };
        if num_tricks(self) as u16 + teammate_tricks > 13 {
            return Some("Can not bid more than 13 tricks as a team.");
        }
        None
    }
}

/// Bid compatibility is symmetric: either bid of a pair tolerates the other
/// exactly when the reverse holds.
pub proof fn lemma_compat_symmetric(x: Bid, y: Bid)
    ensures
        spec_compat(x, Some(y)) == spec_compat(y, Some(x)),
{
}

/// Two claimed-trick bids are compatible exactly when their claims total at
/// most thirteen, and two nil-kind bids are never compatible.
pub proof fn lemma_bid_sum_rule(a: u8, b: u8, x: Bid, y: Bid)
    ensures
        spec_compat(Bid::Take(a), Some(Bid::Take(b))) <==> a + b <= 13,
        spec_is_any_nil(x) && spec_is_any_nil(y) ==> !spec_compat(x, Some(y)),
{
}

/// Iterates through every possible bid in a fixed order.
pub struct Generator {
    next: Bid,
}

impl Generator {
    /// The position of a bid in the generator's order.
    pub open spec fn spec_position(bid: Bid) -> int {
        match bid {
            Bid::BlindNil => 0,
            Bid::Nil => 1,
            Bid::Take(n) => 2 + n,
        }
    }

    /// The bid at a position of the generator's order, for `0 <= k < 16`.
    pub open spec fn spec_bid_at(k: int) -> Bid {
        if k == 0 {
            Bid::BlindNil
        } else if k == 1 {
            Bid::Nil
        } else {
            Bid::Take((k - 2) as u8)
        }
    }

    /// The position this generator will yield next.
    pub closed spec fn position(self) -> int {
        Generator::spec_position(self.next)
    }

    /// A generator is well formed while its position stays within the
    /// sixteen possible bids plus the end marker.
    pub open spec fn wf(self) -> bool {
        0 <= self.position() <= 16
    }

    /// Yields the bid at the current position and advances, or None once
    /// all sixteen bids have been yielded.
    pub fn next(&mut self) -> (r: Option<Bid>)
        requires
            old(self).wf(),
        ensures
            final(self).wf(),
            old(self).position() < 16 ==> r == Some(Generator::spec_bid_at(old(self).position()))
                && final(self).position() == old(self).position() + 1,
            old(self).position() >= 16 ==> r is None
                && final(self).position() == old(self).position(),
    {
        if self.next == Bid::Take(14) {
            None
        } else {
            let current = self.next;
            self.next = match current {
                Bid::BlindNil => Bid::Nil,
                Bid::Nil => Bid::Take(0),
                Bid::Take(n) => Bid::Take(n + 1),
            };
            Some(current)
        }
    }
}

impl Default for Generator {
    /// A fresh generator positioned on the first bid of the order.
    fn default() -> (r: Self)
        ensures
            r.wf(),
            r.position() == 0,
    {
        Self { next: Bid::BlindNil }
    }
}

/// Clamps a mathematical integer into the i64 range.
pub open spec fn clamp_i64(x: int) -> int {
    if x > i64::MAX {
        i64::MAX as int
    } else if x < i64::MIN {
        i64::MIN as int
    } else {
        x
    }
}

/// Represents a team's score.
///
/// The score splits into a `tens` component worth ten points each and an
/// `extras` component in the range [0, 10) worth one point each; extras
/// carry into tens in groups of ten.
#[derive(Debug, Copy, Clone, Eq, PartialEq, Hash, Structural)]
pub struct Score {
    tens: i64,
    extras: u8,
}

impl Score {
    /// The tens component.
    pub closed spec fn spec_tens(self) -> int {
        self.tens as int
    }

    /// The extras component.
    pub closed spec fn spec_extras(self) -> int {
        self.extras as int
    }

    /// A score is well formed when its extras stay below ten.
    pub closed spec fn wf(self) -> bool {
        self.extras <= 9
    }

    /// Creates a new Score given the net number of tens and a number
    /// of extras, carrying extras into tens in groups of ten.
    pub fn new(num_tens: i64, num_extras: u8) -> (r: Self)
        requires
            num_tens + num_extras as int / 10 <= i64::MAX,
        ensures
            r.wf(),
            r.spec_tens() == num_tens + num_extras as int / 10,
            r.spec_extras() == num_extras as int % 10,
    {
        let mut score = Score { tens: num_tens, extras: 0 };
        score.add_extras(num_extras);
        score
    }

    /// Adds some number to the tens position of this score.
    /// This is the number of tricks taken plus 10 for nil or 20 for blind nil.
    pub fn add_tens(&mut self, num_tens: u8)
        requires
            old(self).spec_tens() + num_tens as int <= i64::MAX,
        ensures
            final(self).spec_tens() == old(self).spec_tens() + num_tens as int,
            final(self).spec_extras() == old(self).spec_extras(),
            old(self).wf() ==> final(self).wf(),
    {
        self.tens = self.tens + num_tens as i64;
    }

    /// Subtracts some number from the tens position of this score.
    /// This is the number of tricks taken plus 10 for nil or 20 for blind nil.
    pub fn sub_tens(&mut self, num_tens: u8)
        requires
            old(self).spec_tens() - num_tens as int >= i64::MIN,
        ensures
            final(self).spec_tens() == old(self).spec_tens() - num_tens as int,
            final(self).spec_extras() == old(self).spec_extras(),
            old(self).wf() ==> final(self).wf(),
    {
        self.tens = self.tens - num_tens as i64;
    }

    /// Adds a number of extras to this score, carrying each full group of
    /// ten extras into one ten.
    pub fn add_extras(&mut self, num_extras: u8)
        requires
            old(self).spec_extras() + num_extras as int <= 255,
            old(self).spec_tens() + (old(self).spec_extras() + num_extras as int) / 10
                <= i64::MAX,
        ensures
            final(self).wf(),
            final(self).spec_tens() == old(self).spec_tens()
                + (old(self).spec_extras() + num_extras as int) / 10,
            final(self).spec_extras() == (old(self).spec_extras() + num_extras as int) % 10,
    {
        let total: u8 = self.extras + num_extras;
        let carry: u8 = total / 10;
        self.tens = self.tens + carry as i64;
        self.extras = total % 10;
    }

    /// Adds another score onto this one, combining the extras and carrying
    /// any full group of ten into the tens; a sum beyond the i64 range is
    /// clamped to the nearest representable value.
    pub fn add_score(&mut self, other: Score)
        requires
            old(self).wf(),
            other.wf(),
        ensures
            final(self).wf(),
            final(self).spec_tens() == clamp_i64(old(self).spec_tens() + other.spec_tens()
                + (old(self).spec_extras() + other.spec_extras()) / 10),
            final(self).spec_extras() == (old(self).spec_extras() + other.spec_extras()) % 10,
    {
        let total: u8 = self.extras + other.extras;
        let carry: u8 = total / 10;
        let sum: i128 = self.tens as i128 + other.tens as i128 + carry as i128;
        self.tens = if sum > i64::MAX as i128 {
            i64::MAX
        } else if sum < i64::MIN as i128 {
            i64::MIN
        } else {
            sum as i64
        };
        self.extras = total % 10;
    }

    /// Converts this score to an integer that can be displayed on a score
    /// board: extras count away from zero, in the direction of the tens.
    pub fn to_display_int(self) -> (r: i64)
        requires
            self.wf(),
            -922_337_203_685_477_579 <= self.spec_tens() <= 922_337_203_685_477_579,
        ensures
            r == self.spec_tens() * 10 + if self.spec_tens() < 0 {
                -self.spec_extras()
            } else {
                self.spec_extras()
            },
    {
        proof {
            lemma_display_bounds(self.spec_tens());
        }
        self.tens * 10 + if self.tens < 0 {
            -(self.extras as i64)
        } else {
            self.extras as i64
        }
    }

    /// Gets the net number of tens (adjusted by nils and groups of 10 extras)
    /// gotten by this score.
    pub fn get_tens(self) -> (r: i64)
        ensures
            r == self.spec_tens(),
    {
        self.tens
    }

    /// Gets the number of extras in this score.
    pub fn get_extras(self) -> (r: u8)
        ensures
            r == self.spec_extras(),
    {
        self.extras
    }
}

/// A tens value within the displayable range stays within the i64 range
/// after scaling and offsetting by the extras.
proof fn lemma_display_bounds(t: int)
    requires
        -922_337_203_685_477_579 <= t <= 922_337_203_685_477_579,
    ensures
        t * 10 + 9 <= i64::MAX,
        t * 10 - 9 >= i64::MIN,
{
    assert(t * 10 + 9 <= i64::MAX && t * 10 - 9 >= i64::MIN) by (nonlinear_arith)
        requires -922_337_203_685_477_579 <= t <= 922_337_203_685_477_579;
}

impl Default for Score {
    /// The zero score.
    fn default() -> (r: Self)
        ensures
            r.wf(),
            r.spec_tens() == 0,
            r.spec_extras() == 0,
    {
        Score { tens: 0, extras: 0 }
    }
}

/// The index of the winning team given the two team scores: a team wins with
/// fifty or more tens and strictly more tens than the other team, or with a
/// lead of fifty or more tens.
pub open spec fn spec_winning_team(s0: Score, s1: Score) -> Option<u8> {
    if s0.spec_tens() >= 50 && s0.spec_tens() > s1.spec_tens() {
        Some(0u8)
    } else if s1.spec_tens() >= 50 && s1.spec_tens() > s0.spec_tens() {
        Some(1u8)
    } else if s0.spec_tens() - s1.spec_tens() >= 50 {
        Some(0u8)
    } else if s1.spec_tens() - s0.spec_tens() >= 50 {
        Some(1u8)
    } else {
        None
    }
}

/// Gets the index of the winning team.
///
/// Returns None if no team has won yet.
pub fn get_winning_team_index(scores: [Score; 2]) -> (r: Option<u8>)
    ensures
        r == spec_winning_team(scores[0], scores[1]),
{
    let t0 = scores[0].get_tens();
    let t1 = scores[1].get_tens();

    // over 50 tens and more tens than opponent
    if t0 >= 50 && t0 > t1 {
        return Some(0);
    }
    if t1 >= 50 && t1 > t0 {
        return Some(1);
    }

    // mercy rule; the lead is computed in a wider type so that scores of
    // either sign compare without overflow
    if t0 as i128 - t1 as i128 >= 50 {
        return Some(0);
    }
    if t1 as i128 - t0 as i128 >= 50 {
        return Some(1);
    }

    None
}

/// Contains a team's bid and number of tricks taken in a round.
#[derive(Copy, Clone, Debug)]
pub struct TeamRoundResult {
    /// The bids of each player in a team for a round.
    pub bids: [Bid; 2],
    /// The number of tricks taken by each player in a team in a round.
    pub tricks_taken: [u8; 2],
}

/// Whether a recorded round fails for a team: the team took fewer tricks
/// than required, or a nil-kind bidder personally took a trick.
pub open spec fn spec_round_failed(r: TeamRoundResult) -> bool {
    ||| r.tricks_taken[0] + r.tricks_taken[1] < spec_num_team_tricks(r.bids[0], r.bids[1])
    ||| spec_is_any_nil(r.bids[0]) && r.tricks_taken[0] != 0
    ||| spec_is_any_nil(r.bids[1]) && r.tricks_taken[1] != 0
}

/// The number of tricks a team took beyond its requirement.
pub open spec fn spec_round_overtricks(r: TeamRoundResult) -> int {
    let taken = r.tricks_taken[0] + r.tricks_taken[1];
    let required = spec_num_team_tricks(r.bids[0], r.bids[1]);
    if taken > required {
        taken - required
    } else {
        0
    }
}

/// The tens component of the score change a recorded round causes.
pub open spec fn spec_round_tens(r: TeamRoundResult) -> int {
    let value = spec_bid_value(r.bids[0], r.bids[1]);
    (if spec_round_failed(r) {
        -value
    } else {
        value
    }) + spec_round_overtricks(r) / 10
}

/// The extras component of the score change a recorded round causes.
pub open spec fn spec_round_extras(r: TeamRoundResult) -> int {
    spec_round_overtricks(r) % 10
}

impl TeamRoundResult {
    /// Creates a pair of TeamRoundResult from an array of bids
    /// and the number of tricks taken.
    pub fn create_pair(bids: Array<Bid>, tricks_taken: Array<u8>) -> (r: [Self; 2])
        ensures
            r[0].bids[0] == bids.spec_get(Player::One),
            r[0].bids[1] == bids.spec_get(Player::Three),
            r[0].tricks_taken[0] == tricks_taken.spec_get(Player::One),
            r[0].tricks_taken[1] == tricks_taken.spec_get(Player::Three),
            r[1].bids[0] == bids.spec_get(Player::Two),
            r[1].bids[1] == bids.spec_get(Player::Four),
            r[1].tricks_taken[0] == tricks_taken.spec_get(Player::Two),
            r[1].tricks_taken[1] == tricks_taken.spec_get(Player::Four),
    {
        [
            Self {
                bids: [bids.get(Player::One), bids.get(Player::Three)],
                tricks_taken: [
                    tricks_taken.get(Player::One),
                    tricks_taken.get(Player::Three),
                ],
            },
            Self {
                bids: [bids.get(Player::Two), bids.get(Player::Four)],
                tricks_taken: [
                    tricks_taken.get(Player::Two),
                    tricks_taken.get(Player::Four),
                ],
            },
        ]
    }

    /// Gets the change in score caused by this round.
    pub fn get_score(&self) -> (r: Score)
        requires
            self.tricks_taken[0] + self.tricks_taken[1] <= 255,
            spec_bid_value(self.bids[0], self.bids[1]) <= 255,
        ensures
            r.wf(),
            r.spec_tens() == spec_round_tens(*self),
            r.spec_extras() == spec_round_extras(*self),
    {
        let tricks_taken = self.tricks_taken[0] + self.tricks_taken[1];
        let tricks_required = num_team_tricks(self.bids[0], self.bids[1]);

        let failed = (tricks_taken < tricks_required)
            || (is_any_nil(self.bids[0]) && self.tricks_taken[0] != 0)
            || (is_any_nil(self.bids[1]) && self.tricks_taken[1] != 0);
        let value = get_bid_value(self.bids[0], self.bids[1]);

        let mut score = Score::default();
        if failed {
            score.sub_tens(value);
        } else {
            score.add_tens(value);
        }
        if tricks_taken > tricks_required {
            score.add_extras(tricks_taken - tricks_required);
        }

        score
    }
}

} // verus!
