//! The `Player` enum together with per-player storage and rotation helpers.

use vstd::prelude::*;

verus! {

/// The possible players.
#[derive(Copy, Clone, Eq, PartialEq, Debug, Hash, Structural)]
pub enum Player {
    /// Starts the game as the dealer.
    One,
    /// Bids first in the first round.
    Two,
    /// Is on player one's team.
    Three,
    /// Is on player two's team.
    Four,
}

impl Player {
    /// The seat index of this player.
    pub open spec fn idx(self) -> int {
        match self {
            Player::One => 0,
            Player::Two => 1,
            Player::Three => 2,
            Player::Four => 3,
        }
    }

    /// The player whose seat index is `i`, for `0 <= i < 4`.
    pub open spec fn of_idx(i: int) -> Player {
        if i == 0 {
            Player::One
        } else if i == 1 {
            Player::Two
        } else if i == 2 {
            Player::Three
        } else {
            Player::Four
        }
    }

    /// The player sitting after this one, in play order.
    pub open spec fn spec_next(self) -> Player {
        match self {
            Player::One => Player::Two,
            Player::Two => Player::Three,
            Player::Three => Player::Four,
            Player::Four => Player::One,
        }
    }

    /// The player sitting before this one, in play order.
    pub open spec fn spec_previous(self) -> Player {
        match self {
            Player::One => Player::Four,
            Player::Two => Player::One,
            Player::Three => Player::Two,
            Player::Four => Player::Three,
        }
    }

    /// The player `k` seats after this one, in play order.
    pub open spec fn nth_next(self, k: int) -> Player
        decreases k,
    {
        if k <= 0 {
            self
        } else {
            self.nth_next(k - 1).spec_next()
        }
    }

    /// This player's teammate: the player sitting across.
    pub open spec fn spec_teammate(self) -> Player {
        self.spec_next().spec_next()
    }

    /// Creates a Player from an index in the range of [0, 4).
    pub fn from_index(index: u8) -> (r: Result<Self, String>)
        ensures
            r is Ok <==> index < 4,
            index < 4 ==> r == Result::<Self, String>::Ok(Player::of_idx(index as int)),
    {
        match index {
            0 => Ok(Player::One),
            1 => Ok(Player::Two),
            2 => Ok(Player::Three),
            3 => Ok(Player::Four),
            _ => Err("Invalid player index".to_string()),
        }
    }

    /// Player to index.
    pub fn to_index(self) -> (r: u8)
        ensures
            r == self.idx(),
    {
        match self {
            Player::One => 0,
            Player::Two => 1,
            Player::Three => 2,
            Player::Four => 3,
        }
    }

    /// Gets the next player, with wrapping.
    pub fn next(self) -> (r: Self)
        ensures
            r == self.spec_next(),
    {
        match self {
            Player::One => Player::Two,
            Player::Two => Player::Three,
            Player::Three => Player::Four,
            Player::Four => Player::One,
        }
    }

    /// Gets the previous player, with wrapping.
    pub fn previous(self) -> (r: Self)
        ensures
            r == self.spec_previous(),
    {
        match self {
            Player::One => Player::Four,
            Player::Two => Player::One,
            Player::Three => Player::Two,
            Player::Four => Player::Three,
        }
    }

    /// Gets a player's teammate.
    pub fn teammate(self) -> (r: Self)
        ensures
            r == self.spec_teammate(),
    {
        self.next().next()
    }

    /// Gets an iterator that will iterate over all players
    /// starting at this player without repetition.
    pub fn iter(self) -> (r: PlayerIter)
        ensures
            r.start() == self,
            r.emitted() == 0,
    {
        PlayerIter::new(self)
    }
}

/// Iterator over players.
///
/// Iterates in the order of play with wrapping and without repetition
/// starting at a specified player.
pub struct PlayerIter {
    start: Player,
    emitted: u8,
}

impl PlayerIter {
    /// The player this iterator started at.
    pub closed spec fn start(self) -> Player {
        self.start
    }

    /// How many players this iterator has already yielded.
    pub closed spec fn emitted(self) -> int {
        self.emitted as int
    }

    /// Creates a new iterator at a given starting player.
    pub fn new(start: Player) -> (r: Self)
        ensures
            r.start() == start,
            r.emitted() == 0,
    {
        Self { start, emitted: 0 }
    }

    /// Yields the next player in rotation order, or None after all four
    /// players have been yielded.
    pub fn next(&mut self) -> (r: Option<Player>)
        ensures
            final(self).start() == old(self).start(),
            old(self).emitted() < 4 ==> r == Some(old(self).start().nth_next(old(self).emitted()))
                && final(self).emitted() == old(self).emitted() + 1,
            old(self).emitted() >= 4 ==> r is None && final(self).emitted() == old(self).emitted(),
    {
        if self.emitted >= 4 {
            return None;
        }
        let mut p = self.start;
        let mut k: u8 = 0;
        while k < self.emitted
            invariant
                k <= self.emitted,
                self.emitted < 4,
                p == self.start.nth_next(k as int),
            decreases self.emitted - k,
        {
            p = p.next();
            k += 1;
        }
        self.emitted += 1;
        Some(p)
    }
}

/// Length four array that uses `Player` as an index.
#[derive(Copy, Clone, Eq, PartialEq, Debug)]
pub struct Array<T> {
    one: T,
    two: T,
    three: T,
    four: T,
}

impl<T> Array<T> {
    /// The entry stored for a player.
    pub closed spec fn spec_get(self, p: Player) -> T {
        match p {
            Player::One => self.one,
            Player::Two => self.two,
            Player::Three => self.three,
            Player::Four => self.four,
        }
    }

    /// The array holding one value in every slot.
    pub closed spec fn from_spec_value(v: T) -> Array<T> {
        Array { one: v, two: v, three: v, four: v }
    }

    /// This array with the entry for one player replaced.
    pub closed spec fn spec_set(self, p: Player, v: T) -> Array<T> {
        match p {
            Player::One => Array { one: v, two: self.two, three: self.three, four: self.four },
            Player::Two => Array { one: self.one, two: v, three: self.three, four: self.four },
            Player::Three => Array { one: self.one, two: self.two, three: v, four: self.four },
            Player::Four => Array { one: self.one, two: self.two, three: self.three, four: v },
        }
    }

    /// Creates a new array filled in with a value.
    pub fn from_value(value: &T) -> (r: Self) where T: Copy
        ensures
            r == Array::from_spec_value(*value),
            forall|p: Player| r.spec_get(p) == *value,
    {
        Self { one: *value, two: *value, three: *value, four: *value }
    }

    /// Creates a new player array from an array ordered by seat index.
    pub fn from_array(array: [T; 4]) -> (r: Self) where T: Copy
        ensures
            forall|p: Player| r.spec_get(p) == array[p.idx()],
    {
        Self { one: array[0], two: array[1], three: array[2], four: array[3] }
    }

    /// Fills in an array with a value.
    pub fn fill(&mut self, value: &T) where T: Copy
        ensures
            forall|p: Player| final(self).spec_get(p) == *value,
    {
        self.one = *value;
        self.two = *value;
        self.three = *value;
        self.four = *value;
    }

    /// Gets the entry stored for a player.
    pub fn get(&self, p: Player) -> (r: T) where T: Copy
        ensures
            r == self.spec_get(p),
    {
        match p {
            Player::One => self.one,
            Player::Two => self.two,
            Player::Three => self.three,
            Player::Four => self.four,
        }
    }

    /// Replaces the entry stored for a player.
    pub fn set(&mut self, p: Player, value: T)
        ensures
            *final(self) == old(self).spec_set(p, value),
            final(self).spec_get(p) == value,
            forall|q: Player| q != p ==> final(self).spec_get(q) == old(self).spec_get(q),
    {
        match p {
            Player::One => { self.one = value; },
            Player::Two => { self.two = value; },
            Player::Three => { self.three = value; },
            Player::Four => { self.four = value; },
        }
    }
}

/// The filled array holds the value in every slot.
pub proof fn lemma_array_from_value<T>(v: T)
    ensures
        forall|p: Player| Array::from_spec_value(v).spec_get(p) == v,
{
}

/// What replacing one entry of a player array leaves in every slot.
pub proof fn lemma_array_set<T>(a: Array<T>, p: Player, v: T)
    ensures
        a.spec_set(p, v).spec_get(p) == v,
        forall|q: Player| q != p ==> a.spec_set(p, v).spec_get(q) == a.spec_get(q),
{
}

} // verus!
