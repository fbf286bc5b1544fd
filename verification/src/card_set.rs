//! A compact set type over the 52-card domain, stored as a 52-bit mask.

use vstd::prelude::*;
use crate::card::{Card, Suite};

verus! {

/// Mask with the 52 low bits set: one bit per card of the deck.
pub const FULL_MASK: u64 = 0x000F_FFFF_FFFF_FFFF;

/// Whether bit `i` of `b` is set, for `0 <= i < 64`.
pub open spec fn bit_at(b: u64, i: int) -> bool {
    (b >> (i as u64)) & 1u64 == 1u64
}

/// The number of set bits of `b` among the bits below `n`.
pub open spec fn count_below(b: u64, n: int) -> nat
    decreases n,
{
    if n <= 0 {
        0
    } else {
        count_below(b, n - 1) + if bit_at(b, n - 1) { 1nat } else { 0nat }
    }
}

/// A set type for cards.
///
/// The representation is a scalar bit mask: bit `i` is set exactly when the
/// card whose index is `i` is a member.
#[derive(Copy, Clone, Eq, PartialEq, Hash, Debug, Structural)]
pub struct CardSet {
    bits: u64,
}

/// Iterator over the cards in a set, from lowest to highest index.
pub struct CardIter {
    bits: u64,
}

impl CardSet {
    /// A card set is well formed when no bit outside the 52-card domain is set.
    pub closed spec fn wf(self) -> bool {
        self.bits & !FULL_MASK == 0u64
    }

    /// The raw mask of this set.
    pub closed spec fn spec_bits(self) -> u64 {
        self.bits
    }

    /// Whether this set holds the card of index `i`.
    pub closed spec fn has_idx(self, i: int) -> bool {
        0 <= i < 52 && bit_at(self.bits, i)
    }

    /// Whether this set holds `c`.
    pub closed spec fn spec_contains(self, c: Card) -> bool {
        c.wf() && self.has_idx(c.idx())
    }

    /// The number of cards in this set.
    pub closed spec fn spec_len(self) -> nat {
        count_below(self.bits, 52)
    }

    /// Whether this set holds nothing.
    pub closed spec fn spec_is_empty(self) -> bool {
        self.bits == 0u64
    }

    /// The set holding the cards of both sets.
    pub closed spec fn spec_union(self, other: CardSet) -> CardSet {
        CardSet { bits: self.bits | other.bits }
    }

    /// The set holding the cards present in both sets.
    pub closed spec fn spec_inter(self, other: CardSet) -> CardSet {
        CardSet { bits: self.bits & other.bits }
    }

    /// The set holding the cards of this set that the other lacks.
    pub closed spec fn spec_diff(self, other: CardSet) -> CardSet {
        CardSet { bits: self.bits & !other.bits }
    }

    /// The set holding every card this set lacks.
    pub closed spec fn spec_compl(self) -> CardSet {
        CardSet { bits: FULL_MASK & !self.bits }
    }

    /// This set with `c` made a member.
    pub closed spec fn spec_insert(self, c: Card) -> CardSet {
        CardSet { bits: self.bits | (1u64 << (c.idx() as u64)) }
    }

    /// This set with `c` made a non-member.
    pub closed spec fn spec_remove(self, c: Card) -> CardSet {
        CardSet { bits: self.bits & !(1u64 << (c.idx() as u64)) }
    }

    /// The set of the thirteen cards of a suite.
    pub closed spec fn spec_suite_set(suite: Suite) -> CardSet {
        CardSet { bits: 0x1FFFu64 << ((13 * suite.idx()) as u64) }
    }

    /// The set holding no card.
    pub closed spec fn spec_empty() -> CardSet {
        CardSet { bits: 0u64 }
    }
}

/// The empty set is well formed and holds no card.
pub proof fn lemma_empty_set_facts()
    ensures
        CardSet::spec_empty().wf(),
        CardSet::spec_empty().spec_is_empty(),
        forall|c: Card| !CardSet::spec_empty().spec_contains(c),
        CardSet::spec_empty().spec_len() == 0,
{
    lemma_zero_mask_facts();
}

/// The set of the cards of a suite is well formed and holds exactly the
/// well-formed cards of that suite.
pub proof fn lemma_suite_set_members(suite: Suite)
    ensures
        CardSet::spec_suite_set(suite).wf(),
        forall|c: Card| CardSet::spec_suite_set(suite).spec_contains(c)
            <==> (c.wf() && c.suite == suite),
{
    let k = suite.idx() as u64;
    let bits = 0x1FFFu64 << (13 * k);
    assert((0x1FFFu64 << (13 * k)) & !FULL_MASK == 0u64) by (bit_vector)
        requires k < 4u64;
    assert forall|c: Card| (CardSet { bits }).spec_contains(c)
        <==> (c.wf() && c.suite == suite) by {
        if c.wf() {
            crate::card::lemma_card_of_own_index(c);
            let si = c.suite.idx() as u64;
            let vi = c.value.idx() as u64;
            assert(((0x1FFFu64 << (13 * k)) >> (13 * si + vi)) & 1u64 == 1u64
                <==> si == k) by (bit_vector)
                requires k < 4u64 && si < 4u64 && vi < 13u64;
            assert(c.idx() == 13 * si + vi);
            assert(c.suite == suite <==> si == k);
        }
    }
}

/// Set membership of a one-bit-or mask: bit `j` of `a | (1 << k)` is set
/// exactly when bit `j` of `a` is, or `j == k`.
proof fn lemma_bit_or_single(a: u64, k: int, j: int)
    requires
        0 <= k < 64,
        0 <= j < 64,
    ensures
        bit_at(a | (1u64 << (k as u64)), j) == (bit_at(a, j) || j == k),
{
    let ku = k as u64;
    let ju = j as u64;
    assert(((a | (1u64 << ku)) >> ju) & 1u64 == 1u64
        <==> ((a >> ju) & 1u64 == 1u64 || ju == ku)) by (bit_vector)
        requires ku < 64u64 && ju < 64u64;
}

/// Set membership of a one-bit-clear mask: bit `j` of `a & !(1 << k)` is set
/// exactly when bit `j` of `a` is and `j != k`.
proof fn lemma_bit_clear_single(a: u64, k: int, j: int)
    requires
        0 <= k < 64,
        0 <= j < 64,
    ensures
        bit_at(a & !(1u64 << (k as u64)), j) == (bit_at(a, j) && j != k),
{
    let ku = k as u64;
    let ju = j as u64;
    assert(((a & !(1u64 << ku)) >> ju) & 1u64 == 1u64
        <==> ((a >> ju) & 1u64 == 1u64 && ju != ku)) by (bit_vector)
        requires ku < 64u64 && ju < 64u64;
}

/// Two masks that agree on every bit below `n` have the same count below `n`.
proof fn lemma_count_congruent(a: u64, b: u64, n: int)
    requires
        0 <= n <= 64,
        forall|j: int| 0 <= j < n ==> bit_at(a, j) == bit_at(b, j),
    ensures
        count_below(a, n) == count_below(b, n),
    decreases n,
{
    if n > 0 {
        lemma_count_congruent(a, b, n - 1);
    }
}

/// Setting one clear bit below `n` raises the count below `n` by one.
proof fn lemma_count_set_bit(a: u64, k: int, n: int)
    requires
        0 <= k < n <= 64,
        !bit_at(a, k),
    ensures
        count_below(a | (1u64 << (k as u64)), n) == count_below(a, n) + 1,
    decreases n,
{
    let b = a | (1u64 << (k as u64));
    if k == n - 1 {
        lemma_bit_or_single(a, k, k);
        assert(forall|j: int| 0 <= j < n - 1 ==> bit_at(b, j) == bit_at(a, j)) by {
            assert forall|j: int| 0 <= j < n - 1 implies bit_at(b, j) == bit_at(a, j) by {
                lemma_bit_or_single(a, k, j);
            }
        }
        lemma_count_congruent(a, b, n - 1);
    } else {
        lemma_count_set_bit(a, k, n - 1);
        lemma_bit_or_single(a, k, n - 1);
    }
}

/// Clearing one set bit below `n` lowers the count below `n` by one.
proof fn lemma_count_clear_bit(a: u64, k: int, n: int)
    requires
        0 <= k < n <= 64,
        bit_at(a, k),
    ensures
        count_below(a & !(1u64 << (k as u64)), n) + 1 == count_below(a, n),
    decreases n,
{
    let b = a & !(1u64 << (k as u64));
    if k == n - 1 {
        lemma_bit_clear_single(a, k, k);
        assert(forall|j: int| 0 <= j < n - 1 ==> bit_at(b, j) == bit_at(a, j)) by {
            assert forall|j: int| 0 <= j < n - 1 implies bit_at(b, j) == bit_at(a, j) by {
                lemma_bit_clear_single(a, k, j);
            }
        }
        lemma_count_congruent(a, b, n - 1);
    } else {
        lemma_count_clear_bit(a, k, n - 1);
        lemma_bit_clear_single(a, k, n - 1);
    }
}

/// A mask below `2^n` with no set bit below `n` is zero.
proof fn lemma_no_bits_zero(b: u64, n: int)
    requires
        0 <= n <= 52,
        b & !FULL_MASK == 0u64,
        forall|j: int| 0 <= j < 52 ==> (j >= n ==> !bit_at(b, j)),
        forall|j: int| 0 <= j < n ==> !bit_at(b, j),
    ensures
        b == 0u64,
{
    assert(forall|j: int| 0 <= j < 64 ==> !bit_at(b, j)) by {
        assert forall|j: int| 0 <= j < 64 implies !bit_at(b, j) by {
            if j >= 52 {
                let ju = j as u64;
                assert(b & !FULL_MASK == 0u64 && 52u64 <= ju < 64u64
                    ==> (b >> ju) & 1u64 != 1u64) by (bit_vector);
            }
        }
    }
    lemma_all_bits_clear_zero(b);
}

/// A mask with no set bit at all is zero.
proof fn lemma_all_bits_clear_zero(b: u64)
    requires
        forall|j: int| 0 <= j < 64 ==> !bit_at(b, j),
    ensures
        b == 0u64,
{
    if b != 0 {
        assert(exists|j: u64| j < 64 && (b >> j) & 1u64 == 1u64) by {
            lemma_nonzero_has_bit(b, 64);
        }
        let j = choose|j: u64| j < 64 && (b >> j) & 1u64 == 1u64;
        assert(bit_at(b, j as int));
    }
}

/// A nonzero mask below `2^n` has a set bit below `n`.
proof fn lemma_nonzero_has_bit(b: u64, n: int)
    requires
        0 < n <= 64,
        b != 0,
        n < 64 ==> b < (1u64 << (n as u64)),
    ensures
        exists|j: u64| j < n && (b >> j) & 1u64 == 1u64,
    decreases n,
{
    let m = (n - 1) as u64;
    if (b >> m) & 1u64 == 1u64 {
        assert(m < n && (b >> m) & 1u64 == 1u64);
    } else {
        if n == 1 {
            assert(false) by {
                assert(!(b != 0u64 && b < (1u64 << 1u64) && (b >> 0u64) & 1u64 != 1u64))
                    by (bit_vector);
            }
        } else {
            assert(b < (1u64 << m)) by (bit_vector)
                requires 0u64 < m < 64u64 && b != 0u64 && (b >> m) & 1u64 != 1u64
                    && (m < 63u64 ==> b < (1u64 << vstd::math::add(m as int, 1) as u64));
            lemma_nonzero_has_bit(b, n - 1);
        }
    }
}

impl CardSet {
    /// Creates an empty set.
    pub fn empty() -> (r: Self)
        ensures
            r == CardSet::spec_empty(),
            r.wf(),
            r.spec_bits() == 0u64,
            r.spec_is_empty(),
            forall|c: Card| !r.spec_contains(c),
            r.spec_len() == 0,
    {
        proof {
            lemma_zero_mask_facts();
        }
        CardSet { bits: 0 }
    }

    /// Creates a set containing every card.
    pub fn full() -> (r: Self)
        ensures
            r.wf(),
            r.spec_bits() == FULL_MASK,
            forall|c: Card| c.wf() ==> r.spec_contains(c),
            r.spec_len() == 52,
    {
        proof {
            lemma_count_full_mask(52);
        }
        assert(FULL_MASK & !FULL_MASK == 0u64) by (bit_vector);
        assert forall|c: Card| c.wf() implies (CardSet { bits: FULL_MASK }).spec_contains(c) by {
            crate::card::lemma_card_of_own_index(c);
            let i = c.idx() as u64;
            assert((FULL_MASK >> i) & 1u64 == 1u64) by (bit_vector)
                requires i < 52u64;
        }
        CardSet { bits: FULL_MASK }
    }

    /// Creates a set containing every card of a suite.
    pub fn suite(suite: Suite) -> (r: Self)
        ensures
            r == CardSet::spec_suite_set(suite),
            r.wf(),
            forall|c: Card| r.spec_contains(c) <==> (c.wf() && c.suite == suite),
            r.spec_len() == 13,
    {
        proof {
            lemma_suite_set_members(suite);
            lemma_count_suite_mask(suite.idx() as u64, 52);
        }
        let s = suite.to_index();
        let bits = 0x1FFFu64 << (13 * s as u64);
        CardSet { bits }
    }

    /// Inserts a card into a set.
    ///
    /// Returns true if the insert took place.
    /// Returns false if nothing happened due to the card already being inserted.
    pub fn insert(&mut self, card: Card) -> (r: bool)
        requires
            old(self).wf(),
            card.wf(),
        ensures
            final(self).wf(),
            r == !old(self).spec_contains(card),
            *final(self) == old(self).spec_insert(card),
            forall|c: Card| final(self).spec_contains(c)
                <==> (old(self).spec_contains(c) || c == card),
            final(self).spec_len() == old(self).spec_len() + if r { 1nat } else { 0nat },
    {
        let idx = card.to_index();
        let mask = 1u64 << (idx as u64);
        let contained = (self.bits & mask) != 0;
        proof {
            let a = self.bits;
            let k = idx as u64;
            lemma_insert_facts(a, k as int);
            assert(a & (1u64 << k) != 0u64 <==> (a >> k) & 1u64 == 1u64) by (bit_vector)
                requires k < 64u64;
            assert forall|c: Card| (CardSet { bits: a | (1u64 << k) }).spec_contains(c)
                <==> ((CardSet { bits: a }).spec_contains(c) || c == card) by {
                if c.wf() {
                    crate::card::lemma_card_of_own_index(c);
                    crate::card::lemma_card_of_own_index(card);
                    lemma_bit_or_single(a, k as int, c.idx());
                }
            }
        }
        self.bits |= mask;
        !contained
    }

    /// Removes a card from a set.
    ///
    /// Returns true if the removal took place.
    /// Returns false if nothing happened due to the card not being in the set.
    pub fn remove(&mut self, card: Card) -> (r: bool)
        requires
            old(self).wf(),
            card.wf(),
        ensures
            final(self).wf(),
            r == old(self).spec_contains(card),
            *final(self) == old(self).spec_remove(card),
            forall|c: Card| final(self).spec_contains(c)
                <==> (old(self).spec_contains(c) && c != card),
            old(self).spec_len() == final(self).spec_len() + if r { 1nat } else { 0nat },
    {
        let idx = card.to_index();
        let mask = 1u64 << (idx as u64);
        let contained = (self.bits & mask) != 0;
        proof {
            let a = self.bits;
            let k = idx as u64;
            lemma_remove_facts(a, k as int);
            assert(a & (1u64 << k) != 0u64 <==> (a >> k) & 1u64 == 1u64) by (bit_vector)
                requires k < 64u64;
            assert forall|c: Card| (CardSet { bits: a & !(1u64 << k) }).spec_contains(c)
                <==> ((CardSet { bits: a }).spec_contains(c) && c != card) by {
                if c.wf() {
                    crate::card::lemma_card_of_own_index(c);
                    crate::card::lemma_card_of_own_index(card);
                    lemma_bit_clear_single(a, k as int, c.idx());
                }
            }
        }
        self.bits &= !mask;
        contained
    }

    /// Removes every card from this set.
    pub fn clear(&mut self)
        ensures
            final(self).wf(),
            final(self).spec_bits() == 0u64,
            final(self).spec_is_empty(),
            forall|c: Card| !final(self).spec_contains(c),
            final(self).spec_len() == 0,
    {
        proof {
            lemma_zero_mask_facts();
        }
        self.bits = 0;
    }

    /// Gets if a card is in this set.
    pub fn contains(self, card: Card) -> (r: bool)
        requires
            card.wf(),
        ensures
            r == self.spec_contains(card),
    {
        let mask = 1u64 << (card.to_index() as u64);
        proof {
            let a = self.bits;
            let k = card.idx() as u64;
            assert(a & (1u64 << k) != 0u64 <==> (a >> k) & 1u64 == 1u64) by (bit_vector)
                requires k < 64u64;
        }
        (self.bits & mask) != 0
    }

    /// Gets if this set is empty.
    pub fn is_empty(self) -> (r: bool)
        ensures
            r == self.spec_is_empty(),
    {
        self.bits == 0
    }

    /// Gets the number of cards in this set.
    pub fn len(self) -> (r: usize)
        ensures
            r == self.spec_len(),
    {
        let mut n: usize = 0;
        let mut i: u64 = 0;
        while i < 52
            invariant
                i <= 52,
                n == count_below(self.bits, i as int),
                n <= i,
            decreases 52 - i,
        {
            if (self.bits >> i) & 1 == 1 {
                n += 1;
            }
            i += 1;
        }
        n
    }

    /// Creates an iterator over all of the cards in this set.
    ///
    /// The iteration order is from lowest to highest index.  This means that
    /// all cards in the same suite will be ordered from lowest value to
    /// highest value.
    pub fn iter(self) -> (r: CardIter)
        requires
            self.wf(),
        ensures
            r.wf(),
            r.remaining() == self,
    {
        CardIter { bits: self.bits }
    }

    /// Inserts every card of a sequence into this set; a card that appears
    /// twice, or is already a member, is kept once.
    pub fn insert_all(&mut self, cards: &Vec<Card>)
        requires
            old(self).wf(),
            forall|i: int| 0 <= i < cards@.len() ==> (#[trigger] cards@[i]).wf(),
        ensures
            final(self).wf(),
            forall|c: Card| final(self).spec_contains(c)
                <==> (old(self).spec_contains(c) || cards@.contains(c)),
    {
        let mut i: usize = 0;
        while i < cards.len()
            invariant
                i <= cards@.len(),
                self.wf(),
                forall|j: int| 0 <= j < cards@.len() ==> (#[trigger] cards@[j]).wf(),
                forall|c: Card| self.spec_contains(c)
                    <==> (old(self).spec_contains(c)
                        || exists|j: int| 0 <= j < i && cards@[j] == c),
            decreases cards@.len() - i,
        {
            let card = cards[i];
            let ghost gi = i as int;
            self.insert(card);
            proof {
                assert forall|c: Card| self.spec_contains(c)
                    <==> (old(self).spec_contains(c)
                        || exists|j: int| 0 <= j < gi + 1 && cards@[j] == c) by {
                    if c == card {
                        assert(cards@[gi] == c);
                    }
                    if exists|j: int| 0 <= j < gi + 1 && cards@[j] == c {
                        let j = choose|j: int| 0 <= j < gi + 1 && cards@[j] == c;
                        if j < gi {
                            assert(exists|j2: int| 0 <= j2 < gi && cards@[j2] == c);
                        }
                    }
                }
            }
            i += 1;
        }
        proof {
            assert forall|c: Card| self.spec_contains(c)
                <==> (old(self).spec_contains(c) || cards@.contains(c)) by {
                if cards@.contains(c) {
                    let j = choose|j: int| 0 <= j < cards@.len() && cards@[j] == c;
                    assert(exists|j2: int| 0 <= j2 < cards@.len() && cards@[j2] == c);
                }
            }
        }
    }

    /// Creates a set from a sequence of cards, tolerating duplicates.
    pub fn from_cards(cards: &Vec<Card>) -> (r: Self)
        requires
            forall|i: int| 0 <= i < cards@.len() ==> (#[trigger] cards@[i]).wf(),
        ensures
            r.wf(),
            forall|c: Card| r.spec_contains(c) <==> cards@.contains(c),
    {
        let mut r = CardSet::empty();
        r.insert_all(cards);
        r
    }

    /// Collects the iteration into a vector: every member of this set,
    /// each exactly once, in strictly ascending index order.  The vector
    /// holds exactly `spec_len()` cards, so iteration yields exactly as
    /// many cards as the set holds.
    pub fn to_vec(self) -> (r: Vec<Card>)
        requires
            self.wf(),
        ensures
            r@.len() == self.spec_len(),
            forall|i: int| 0 <= i < r@.len() ==> (#[trigger] r@[i]).wf()
                && self.spec_contains(r@[i]),
            forall|i: int, j: int| 0 <= i < j < r@.len()
                ==> #[trigger] r@[i].idx() < #[trigger] r@[j].idx(),
            forall|c: Card| self.spec_contains(c) ==> r@.contains(c),
    {
        let mut r: Vec<Card> = Vec::new();
        let mut iter = self.iter();
        let ghost mut hi: int = -1;
        let mut done = false;
        while !done
            invariant
                self.wf(),
                iter.wf(),
                done ==> iter.remaining().spec_is_empty(),
                r@.len() + iter.remaining().spec_len() == self.spec_len(),
                forall|i: int| 0 <= i < r@.len() ==> (#[trigger] r@[i]).wf()
                    && self.spec_contains(r@[i]),
                forall|i: int| 0 <= i < r@.len() ==> #[trigger] r@[i].idx() <= hi,
                forall|i: int, j: int| 0 <= i < j < r@.len()
                    ==> #[trigger] r@[i].idx() < #[trigger] r@[j].idx(),
                forall|d: Card| #[trigger] iter.remaining().spec_contains(d)
                    ==> self.spec_contains(d) && d.idx() > hi,
                forall|c: Card| #[trigger] self.spec_contains(c)
                    ==> (r@.contains(c) || iter.remaining().spec_contains(c)),
            decreases iter.remaining().spec_len() + if done { 0int } else { 1int },
        {
            let ghost rem = iter.remaining();
            match iter.next() {
                None => { done = true; },
                Some(card) => {
                    let ghost prev = r@;
                    r.push(card);
                    proof {
                        hi = card.idx();
                        lemma_push_contains_card(prev, r@, card);
                        assert forall|c: Card| #[trigger] self.spec_contains(c)
                            implies (r@.contains(c)
                                || iter.remaining().spec_contains(c)) by {
                            if rem.spec_contains(c) && c != card {
                                assert(iter.remaining().spec_contains(c));
                            }
                        }
                    }
                },
            }
        }
        proof {
            lemma_count_zero_mask(52);
            assert(iter.remaining().spec_len() == 0);
            lemma_iter_remaining_wf(iter);
            lemma_empty_no_member(iter.remaining());
        }
        r
    }

    /// Set union.
    pub fn union(self, rhs: Self) -> (r: Self)
        ensures
            r == self.spec_union(rhs),
            self.wf() && rhs.wf() ==> r.wf(),
            forall|c: Card| r.spec_contains(c)
                <==> (self.spec_contains(c) || rhs.spec_contains(c)),
    {
        proof {
            let a = self.bits;
            let b = rhs.bits;
            assert(a & !FULL_MASK == 0u64 && b & !FULL_MASK == 0u64
                ==> (a | b) & !FULL_MASK == 0u64) by (bit_vector);
            assert forall|j: int| 0 <= j < 64 implies
                bit_at(a | b, j) == (bit_at(a, j) || bit_at(b, j)) by {
                lemma_bit_disjunction(a, b, j);
            }
        }
        CardSet { bits: self.bits | rhs.bits }
    }

    /// Set intersection.
    pub fn intersection(self, rhs: Self) -> (r: Self)
        ensures
            r == self.spec_inter(rhs),
            self.wf() ==> r.wf(),
            forall|c: Card| r.spec_contains(c)
                <==> (self.spec_contains(c) && rhs.spec_contains(c)),
    {
        proof {
            let a = self.bits;
            let b = rhs.bits;
            assert(a & !FULL_MASK == 0u64
                ==> (a & b) & !FULL_MASK == 0u64) by (bit_vector);
            assert forall|j: int| 0 <= j < 64 implies
                bit_at(a & b, j) == (bit_at(a, j) && bit_at(b, j)) by {
                lemma_bit_conjunction(a, b, j);
            }
        }
        CardSet { bits: self.bits & rhs.bits }
    }

    /// Set difference.
    pub fn difference(self, rhs: Self) -> (r: Self)
        ensures
            r == self.spec_diff(rhs),
            self.wf() ==> r.wf(),
            forall|c: Card| r.spec_contains(c)
                <==> (self.spec_contains(c) && !rhs.spec_contains(c)),
    {
        proof {
            let a = self.bits;
            let b = rhs.bits;
            assert(a & !FULL_MASK == 0u64
                ==> (a & !b) & !FULL_MASK == 0u64) by (bit_vector);
            assert forall|j: int| 0 <= j < 64 implies
                bit_at(a & !b, j) == (bit_at(a, j) && !bit_at(b, j)) by {
                lemma_bit_conjunction(a, !b, j);
                lemma_bit_negation(b, j);
            }
        }
        CardSet { bits: self.bits & !rhs.bits }
    }

    /// Set complement, relative to the full deck.
    pub fn complement(self) -> (r: Self)
        ensures
            r == self.spec_compl(),
            r.wf(),
            forall|c: Card| r.spec_contains(c) <==> (c.wf() && !self.spec_contains(c)),
    {
        proof {
            let a = self.bits;
            let b = FULL_MASK & !a;
            assert((FULL_MASK & !a) & !FULL_MASK == 0u64) by (bit_vector);
            assert forall|c: Card| (CardSet { bits: b }).spec_contains(c)
                <==> (c.wf() && !(CardSet { bits: a }).spec_contains(c)) by {
                if c.wf() {
                    crate::card::lemma_card_of_own_index(c);
                    let i = c.idx() as u64;
                    assert(((FULL_MASK & !a) >> i) & 1u64 == 1u64
                        <==> (a >> i) & 1u64 != 1u64) by (bit_vector)
                        requires i < 52u64;
                }
            }
        }
        CardSet { bits: FULL_MASK & !self.bits }
    }
}

/// Bitwise facts that back `insert`'s contract.
proof fn lemma_insert_facts(a: u64, k: int)
    requires
        0 <= k < 52,
        a & !FULL_MASK == 0u64,
    ensures
        (a | (1u64 << (k as u64))) & !FULL_MASK == 0u64,
        !bit_at(a, k) ==> count_below(a | (1u64 << (k as u64)), 52) == count_below(a, 52) + 1,
        bit_at(a, k) ==> a | (1u64 << (k as u64)) == a,
{
    let ku = k as u64;
    assert((a | (1u64 << ku)) & !FULL_MASK == 0u64) by (bit_vector)
        requires ku < 52u64 && a & !FULL_MASK == 0u64;
    if bit_at(a, k) {
        assert((a >> ku) & 1u64 == 1u64 ==> a | (1u64 << ku) == a) by (bit_vector)
            requires ku < 64u64;
    } else {
        lemma_count_set_bit(a, k, 52);
    }
}

/// Bitwise facts that back `remove`'s contract.
proof fn lemma_remove_facts(a: u64, k: int)
    requires
        0 <= k < 52,
        a & !FULL_MASK == 0u64,
    ensures
        (a & !(1u64 << (k as u64))) & !FULL_MASK == 0u64,
        bit_at(a, k) ==> count_below(a & !(1u64 << (k as u64)), 52) + 1 == count_below(a, 52),
        !bit_at(a, k) ==> a & !(1u64 << (k as u64)) == a,
{
    let ku = k as u64;
    assert((a & !(1u64 << ku)) & !FULL_MASK == 0u64) by (bit_vector)
        requires a & !FULL_MASK == 0u64;
    if bit_at(a, k) {
        lemma_count_clear_bit(a, k, 52);
    } else {
        assert((a >> ku) & 1u64 != 1u64 ==> a & !(1u64 << ku) == a) by (bit_vector)
            requires ku < 64u64;
    }
}

/// The zero mask has a zero count below any bound.
proof fn lemma_count_zero_mask(n: int)
    requires
        0 <= n <= 64,
    ensures
        count_below(0u64, n) == 0,
    decreases n,
{
    if n > 0 {
        lemma_count_zero_mask(n - 1);
        let m = (n - 1) as u64;
        assert((0u64 >> m) & 1u64 != 1u64) by (bit_vector);
    }
}

/// Every one of the first `n` bits of the full-deck mask is set, so its
/// count below `n` is `n`.
proof fn lemma_count_full_mask(n: int)
    requires
        0 <= n <= 52,
    ensures
        count_below(FULL_MASK, n) == n,
    decreases n,
{
    if n > 0 {
        lemma_count_full_mask(n - 1);
        let j = (n - 1) as u64;
        assert((FULL_MASK >> j) & 1u64 == 1u64) by (bit_vector)
            requires j < 52u64;
    }
}

/// The mask of a suite holds thirteen consecutive set bits, so its count
/// below `n` climbs from zero to thirteen across that range.
proof fn lemma_count_suite_mask(k: u64, n: int)
    requires
        k < 4,
        0 <= n <= 64,
    ensures
        count_below(0x1FFFu64 << (13 * k), n) == if n <= 13 * k {
            0int
        } else if n <= 13 * k + 13 {
            n - 13 * k
        } else {
            13int
        },
    decreases n,
{
    if n > 0 {
        lemma_count_suite_mask(k, n - 1);
        let j = (n - 1) as u64;
        assert(((0x1FFFu64 << (13 * k)) >> j) & 1u64 == 1u64
            <==> (13 * k <= j && j < 13 * k + 13)) by (bit_vector)
            requires k < 4u64 && j < 64u64;
    }
}

/// A mask whose count below `n` is zero has no set bit below `n`.
proof fn lemma_count_zero_all_clear(b: u64, n: int)
    requires
        0 <= n <= 64,
        count_below(b, n) == 0,
    ensures
        forall|j: int| 0 <= j < n ==> !bit_at(b, j),
    decreases n,
{
    if n > 0 {
        lemma_count_zero_all_clear(b, n - 1);
    }
}

/// The empty mask is well formed, has no member, and counts zero.
proof fn lemma_zero_mask_facts()
    ensures
        0u64 & !FULL_MASK == 0u64,
        forall|j: int| 0 <= j < 64 ==> !bit_at(0u64, j),
        count_below(0u64, 52) == 0,
{
    assert(0u64 & !FULL_MASK == 0u64) by (bit_vector);
    assert forall|j: int| 0 <= j < 64 implies !bit_at(0u64, j) by {
        let ju = j as u64;
        assert((0u64 >> ju) & 1u64 != 1u64) by (bit_vector);
    }
    lemma_count_zero_mask(52);
}

/// Bit `j` of `a | b` is set exactly when bit `j` of either side is.
proof fn lemma_bit_disjunction(a: u64, b: u64, j: int)
    requires
        0 <= j < 64,
    ensures
        bit_at(a | b, j) == (bit_at(a, j) || bit_at(b, j)),
{
    let ju = j as u64;
    assert(((a | b) >> ju) & 1u64 == 1u64
        <==> ((a >> ju) & 1u64 == 1u64 || (b >> ju) & 1u64 == 1u64)) by (bit_vector)
        requires ju < 64u64;
}

/// Bit `j` of `a & b` is set exactly when bit `j` of both sides is.
proof fn lemma_bit_conjunction(a: u64, b: u64, j: int)
    requires
        0 <= j < 64,
    ensures
        bit_at(a & b, j) == (bit_at(a, j) && bit_at(b, j)),
{
    let ju = j as u64;
    assert(((a & b) >> ju) & 1u64 == 1u64
        <==> ((a >> ju) & 1u64 == 1u64 && (b >> ju) & 1u64 == 1u64)) by (bit_vector)
        requires ju < 64u64;
}

/// Bit `j` of `!a` is set exactly when bit `j` of `a` is not.
proof fn lemma_bit_negation(a: u64, j: int)
    requires
        0 <= j < 64,
    ensures
        bit_at(!a, j) == !bit_at(a, j),
{
    let ju = j as u64;
    assert(((!a) >> ju) & 1u64 == 1u64 <==> (a >> ju) & 1u64 != 1u64) by (bit_vector)
        requires ju < 64u64;
}

/// The count of a union never exceeds the sum of the two counts.
proof fn lemma_count_union_le(a: u64, b: u64, n: int)
    requires
        0 <= n <= 64,
    ensures
        count_below(a | b, n) <= count_below(a, n) + count_below(b, n),
    decreases n,
{
    if n > 0 {
        lemma_count_union_le(a, b, n - 1);
        lemma_bit_disjunction(a, b, n - 1);
    }
}

/// The cardinality of a union never exceeds the sum of the cardinalities.
pub proof fn lemma_union_len_le(a: CardSet, b: CardSet)
    ensures
        a.spec_union(b).spec_len() <= a.spec_len() + b.spec_len(),
{
    lemma_count_union_le(a.spec_bits(), b.spec_bits(), 52);
}

/// A set intersected with its own complement is empty.
pub proof fn lemma_inter_compl_empty(a: CardSet)
    ensures
        a.spec_inter(a.spec_compl()).spec_is_empty(),
{
    bv_inter_compl_zero(a.spec_bits());
}

/// Bitwise core of `lemma_inter_compl_empty`.
proof fn bv_inter_compl_zero(x: u64)
    ensures
        x & (FULL_MASK & !x) == 0u64,
{
    assert(x & (FULL_MASK & !x) == 0u64) by (bit_vector);
}

/// A well-formed set united with its own complement is the full deck.
pub proof fn lemma_union_compl_full(a: CardSet)
    requires
        a.wf(),
    ensures
        a.spec_union(a.spec_compl()).spec_bits() == FULL_MASK,
{
    bv_union_compl_full(a.spec_bits());
}

/// Bitwise core of `lemma_union_compl_full`.
proof fn bv_union_compl_full(x: u64)
    ensures
        x & !FULL_MASK == 0u64 ==> x | (FULL_MASK & !x) == FULL_MASK,
{
    assert(x & !FULL_MASK == 0u64 ==> x | (FULL_MASK & !x) == FULL_MASK) by (bit_vector);
}

/// Insert and remove are inverses: removing a freshly inserted card restores
/// the set, and re-inserting a freshly removed card restores the set.
pub proof fn lemma_insert_remove_inverse(a: CardSet, c: Card)
    requires
        a.wf(),
        c.wf(),
    ensures
        !a.spec_contains(c) ==> a.spec_insert(c).spec_remove(c) == a,
        a.spec_contains(c) ==> a.spec_remove(c).spec_insert(c) == a,
        a.spec_contains(c) ==> a.spec_insert(c) == a,
        !a.spec_contains(c) ==> a.spec_remove(c) == a,
{
    crate::card::lemma_card_of_own_index(c);
    bv_set_clear_inverse(a.spec_bits(), c.idx() as u64);
}

/// Bitwise core of `lemma_insert_remove_inverse`.
proof fn bv_set_clear_inverse(x: u64, k: u64)
    requires
        k < 64,
    ensures
        (x >> k) & 1u64 != 1u64 ==> (x | (1u64 << k)) & !(1u64 << k) == x,
        (x >> k) & 1u64 == 1u64 ==> (x & !(1u64 << k)) | (1u64 << k) == x,
        (x >> k) & 1u64 == 1u64 ==> x | (1u64 << k) == x,
        (x >> k) & 1u64 != 1u64 ==> x & !(1u64 << k) == x,
{
    assert((x >> k) & 1u64 != 1u64 ==> (x | (1u64 << k)) & !(1u64 << k) == x) by (bit_vector)
        requires k < 64u64;
    assert((x >> k) & 1u64 == 1u64 ==> (x & !(1u64 << k)) | (1u64 << k) == x) by (bit_vector)
        requires k < 64u64;
    assert((x >> k) & 1u64 == 1u64 ==> x | (1u64 << k) == x) by (bit_vector)
        requires k < 64u64;
    assert((x >> k) & 1u64 != 1u64 ==> x & !(1u64 << k) == x) by (bit_vector)
        requires k < 64u64;
}

/// A well-formed set is empty exactly when its cardinality is zero, which
/// in turn holds exactly when it has no member.
pub proof fn lemma_len_zero_iff_empty(a: CardSet)
    requires
        a.wf(),
    ensures
        a.spec_is_empty() <==> a.spec_len() == 0,
        a.spec_len() == 0 <==> forall|c: Card| !a.spec_contains(c),
{
    if a.spec_is_empty() {
        lemma_zero_mask_facts();
    }
    if a.spec_len() == 0 {
        lemma_count_zero_all_clear(a.spec_bits(), 52);
        lemma_no_bits_zero(a.spec_bits(), 52);
    }
    lemma_empty_no_member(a);
}

/// A well-formed set is empty exactly when it has no member.
pub proof fn lemma_empty_no_member(a: CardSet)
    requires
        a.wf(),
    ensures
        a.spec_is_empty() <==> forall|c: Card| !a.spec_contains(c),
{
    if forall|c: Card| !a.spec_contains(c) {
        assert forall|j: int| 0 <= j < 52 implies !bit_at(a.spec_bits(), j) by {
            crate::card::lemma_card_index_bounds(j);
            assert(!a.spec_contains(Card::of_idx(j)));
        }
        lemma_no_bits_zero(a.spec_bits(), 52);
    } else {
        let c = choose|c: Card| a.spec_contains(c);
        assert(a.spec_contains(c));
        bv_member_nonzero(a.spec_bits(), c.idx() as u64);
    }
}

/// Bitwise core of `lemma_empty_no_member`: a mask with a set bit is nonzero.
proof fn bv_member_nonzero(x: u64, k: u64)
    ensures
        (x >> k) & 1u64 == 1u64 ==> x != 0u64,
{
    assert((x >> k) & 1u64 == 1u64 ==> x != 0u64) by (bit_vector);
}

/// Two sets are equal exactly when they hold the same cards.
pub proof fn lemma_ext_equal(a: CardSet, b: CardSet)
    requires
        a.wf(),
        b.wf(),
        forall|c: Card| a.spec_contains(c) == b.spec_contains(c),
    ensures
        a == b,
{
    let d = a.spec_diff(b).spec_union(b.spec_diff(a));
    assert forall|c: Card| !d.spec_contains(c) by {
        if c.wf() {
            assert(a.spec_contains(c) == b.spec_contains(c));
            crate::card::lemma_card_of_own_index(c);
            lemma_bit_conjunction(a.spec_bits(), !b.spec_bits(), c.idx());
            lemma_bit_conjunction(b.spec_bits(), !a.spec_bits(), c.idx());
            lemma_bit_negation(a.spec_bits(), c.idx());
            lemma_bit_negation(b.spec_bits(), c.idx());
            lemma_bit_disjunction(
                a.spec_bits() & !b.spec_bits(),
                b.spec_bits() & !a.spec_bits(),
                c.idx(),
            );
        }
    }
    bv_symmetric_diff(a.spec_bits(), b.spec_bits());
    lemma_empty_no_member(d);
}

/// Bitwise core of `lemma_ext_equal`: the symmetric difference of two
/// well-formed masks is well formed, and its vanishing forces equality.
proof fn bv_symmetric_diff(x: u64, y: u64)
    ensures
        x & !FULL_MASK == 0u64 && y & !FULL_MASK == 0u64
            ==> ((x & !y) | (y & !x)) & !FULL_MASK == 0u64,
        ((x & !y) | (y & !x)) == 0u64 ==> x == y,
{
    assert(x & !FULL_MASK == 0u64 && y & !FULL_MASK == 0u64
        ==> ((x & !y) | (y & !x)) & !FULL_MASK == 0u64) by (bit_vector);
    assert(((x & !y) | (y & !x)) == 0u64 ==> x == y) by (bit_vector);
}

/// What pushing one card onto a sequence leaves in it.
proof fn lemma_push_contains_card(prev: Seq<Card>, cur: Seq<Card>, pushed: Card)
    requires
        cur == prev.push(pushed),
    ensures
        forall|c: Card| cur.contains(c) <==> (prev.contains(c) || c == pushed),
{
    assert forall|c: Card| cur.contains(c) <==> (prev.contains(c) || c == pushed) by {
        if c == pushed {
            assert(cur[cur.len() - 1] == c);
            assert(cur.contains(c));
        }
        if prev.contains(c) {
            let i = choose|i: int| 0 <= i < prev.len() && prev[i] == c;
            assert(cur[i] == c);
            assert(cur.contains(c));
        }
        if cur.contains(c) && c != pushed {
            let i = choose|i: int| 0 <= i < cur.len() && cur[i] == c;
            assert(i < prev.len());
            assert(prev[i] == c);
            assert(prev.contains(c));
        }
    }
}

/// A well-formed iterator's pending cards form a well-formed set.
pub proof fn lemma_iter_remaining_wf(it: CardIter)
    requires
        it.wf(),
    ensures
        it.remaining().wf(),
{
}

impl CardIter {
    /// A card iterator is well formed when its pending mask stays within
    /// the 52-card domain.
    pub closed spec fn wf(self) -> bool {
        self.bits & !FULL_MASK == 0u64
    }

    /// The set of cards this iterator has not yet yielded.
    pub closed spec fn remaining(self) -> CardSet {
        CardSet { bits: self.bits }
    }

    /// Yields the lowest-index card not yet yielded, or None once every card
    /// of the set has been yielded.
    ///
    /// Every card still pending after a yield has a strictly higher index, so
    /// the yielded cards come in strictly ascending index order.
    pub fn next(&mut self) -> (r: Option<Card>)
        requires
            old(self).wf(),
        ensures
            final(self).wf(),
            r is None <==> old(self).remaining().spec_is_empty(),
            r is None ==> *final(self) == *old(self),
            r matches Some(c) ==> c.wf() && old(self).remaining().spec_contains(c)
                && final(self).remaining() == old(self).remaining().spec_remove(c)
                && final(self).remaining().spec_len() + 1 == old(self).remaining().spec_len()
                && (forall|d: Card| final(self).remaining().spec_contains(d)
                    ==> d.idx() > c.idx())
                && (forall|d: Card| #[trigger] final(self).remaining().spec_contains(d)
                    <==> old(self).remaining().spec_contains(d) && d != c),
    {
        if self.bits == 0 {
            return None;
        }
        let ghost g_bits = self.bits;
        let mut i: u64 = 0;
        while i < 52 && (self.bits >> i) & 1 != 1
            invariant
                self.bits == g_bits,
                i <= 52,
                forall|j: int| 0 <= j < i ==> !bit_at(g_bits, j),
            decreases 52 - i,
        {
            i += 1;
        }
        if i == 52 {
            proof {
                lemma_no_bits_zero(self.bits, 52);
                assert(false);
            }
        }
        let card = match Card::from_index(i as u8) {
            Ok(c) => c,
            Err(_) => { proof { assert(false); } vstd::pervasive::unreached() },
        };
        proof {
            let a = self.bits;
            let k = i;
            lemma_remove_facts(a, k as int);
            assert(bit_at(a, k as int));
            assert forall|d: Card| (CardSet { bits: a & !(1u64 << k) }).spec_contains(d)
                implies d.idx() > k as int by {
                if d.wf() {
                    lemma_bit_clear_single(a, k as int, d.idx());
                }
            }
            assert forall|d: Card| (CardSet { bits: a & !(1u64 << k) }).spec_contains(d)
                <==> ((CardSet { bits: a }).spec_contains(d) && d != card) by {
                if d.wf() {
                    crate::card::lemma_card_of_own_index(d);
                    crate::card::lemma_card_of_own_index(card);
                    lemma_bit_clear_single(a, k as int, d.idx());
                }
            }
        }
        let mask = 1u64 << i;
        self.bits &= !mask;
        Some(card)
    }
}

} // verus!
