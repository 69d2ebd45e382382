//! The [`Hand`] type and blackjack value logic.
use vstd::prelude::*;

use super::card::{card_label, rank_value, Card, Rank};
use crate::utils::text::{decimal, u64_to_decimal};

verus! {

/// The winning hand value; totals above this are busts.
pub const BLACKJACK_VALUE: u32 = 21;

/// Sum of the base values of the cards (every ace counted as 11).
pub open spec fn cards_total(cards: Seq<Card>) -> nat
    decreases cards.len(),
{
    if cards.len() == 0 {
        0
    } else {
        cards_total(cards.drop_last()) + rank_value(cards.last().rank)
    }
}

/// Number of aces among the cards.
pub open spec fn ace_count(cards: Seq<Card>) -> nat
    decreases cards.len(),
{
    if cards.len() == 0 {
        0
    } else {
        ace_count(cards.drop_last()) + if cards.last().rank == Rank::Ace { 1nat } else { 0nat }
    }
}

/// How many aces must drop from 11 to 1: the fewest that bring the total to
/// 21 or below, or all of them when even that is not enough.
pub open spec fn aces_downgraded(cards: Seq<Card>) -> nat {
    let total = cards_total(cards);
    let aces = ace_count(cards);
    if total <= 21 {
        0
    } else {
        let needed = ((total - 12) / 10) as nat;
        if needed < aces { needed } else { aces }
    }
}

/// The best blackjack total of the cards.
pub open spec fn hand_value(cards: Seq<Card>) -> nat {
    (cards_total(cards) - 10 * aces_downgraded(cards)) as nat
}

/// Whether at least one ace still counts as 11.
pub open spec fn hand_is_soft(cards: Seq<Card>) -> bool {
    ace_count(cards) > aces_downgraded(cards)
}

/// A natural: exactly two cards worth 21.
pub open spec fn hand_is_blackjack(cards: Seq<Card>) -> bool {
    cards.len() == 2 && hand_value(cards) == 21
}

/// The total exceeds 21.
pub open spec fn hand_is_busted(cards: Seq<Card>) -> bool {
    hand_value(cards) > 21
}

/// Card labels joined by ", ".
pub open spec fn labels_joined(cards: Seq<Card>) -> Seq<char>
    decreases cards.len(),
{
    if cards.len() == 0 {
        seq![]
    } else if cards.len() == 1 {
        card_label(cards[0])
    } else {
        labels_joined(cards.drop_last()) + seq![',', ' '] + card_label(cards.last())
    }
}

/// How a hand is printed: "(no cards)" when empty, otherwise the card labels
/// joined by ", " followed by " = " and the hand's value, e.g. "A♠, K♥ = 21".
pub open spec fn hand_description(cards: Seq<Card>) -> Seq<char> {
    if cards.len() == 0 {
        seq!['(', 'n', 'o', ' ', 'c', 'a', 'r', 'd', 's', ')']
    } else {
        labels_joined(cards) + seq![' ', '=', ' '] + decimal(hand_value(cards))
    }
}

/// Each card adds between 2 and 11 to the total; each ace adds 11.
pub proof fn lemma_total_bounds(cards: Seq<Card>)
    ensures
        cards_total(cards) <= 11 * cards.len(),
        cards_total(cards) >= 2 * cards.len() + 9 * ace_count(cards),
        ace_count(cards) <= cards.len(),
    decreases cards.len(),
{
    if cards.len() > 0 {
        lemma_total_bounds(cards.drop_last());
    }
}

/// The prefix totals never exceed the whole total.
pub proof fn lemma_prefix_total(cards: Seq<Card>, i: int)
    requires
        0 <= i <= cards.len(),
    ensures
        cards_total(cards.take(i)) <= cards_total(cards),
        ace_count(cards.take(i)) <= ace_count(cards),
    decreases cards.len() - i,
{
    if i < cards.len() {
        lemma_prefix_total(cards, i + 1);
        assert(cards.take(i + 1).drop_last() =~= cards.take(i));
    } else {
        assert(cards.take(i) =~= cards);
    }
}

/// Every card counts at least 1 toward the value, so a hand's value is at
/// least its number of cards; and its total is at most 11 per card.
pub proof fn lemma_value_at_least_len(cards: Seq<Card>)
    ensures
        hand_value(cards) >= cards.len(),
        cards_total(cards) <= 11 * cards.len(),
{
    lemma_total_bounds(cards);
}

/// Appending a card adds its value to the total and one to the ace count if it is an ace.
pub proof fn lemma_push(cards: Seq<Card>, c: Card)
    ensures
        cards_total(cards.push(c)) == cards_total(cards) + rank_value(c.rank),
        ace_count(cards.push(c)) == ace_count(cards) + if c.rank == Rank::Ace { 1nat } else { 0nat },
{
    assert(cards.push(c).drop_last() =~= cards);
}

/// A blackjack hand: an ordered collection of cards.
#[derive(Debug, Clone)]
pub struct Hand {
    cards: Vec<Card>,
}

impl View for Hand {
    type V = Seq<Card>;

    closed spec fn view(&self) -> Seq<Card> {
        self.cards@
    }
}

/// Counts the aces in a slice of cards.
fn aces(cards: &[Card]) -> (n: usize)
    ensures
        n == ace_count(cards@),
{
    let mut n: usize = 0;
    let mut i: usize = 0;
    while i < cards.len()
        invariant
            i <= cards@.len(),
            n == ace_count(cards@.take(i as int)),
            n <= i,
        decreases cards@.len() - i,
    {
        assert(cards@.take(i + 1).drop_last() =~= cards@.take(i as int));
        if cards[i].is_ace() {
            n = n + 1;
        }
        i = i + 1;
    }
    assert(cards@.take(i as int) =~= cards@);
    n
}

impl Hand {
    /// The sum of the cards' base values fits the `u32` arithmetic the value
    /// is computed in.
    pub open spec fn fits(&self) -> bool {
        cards_total(self@) <= u32::MAX
    }

    /// Creates an empty hand.
    pub fn new() -> (h: Hand)
        ensures
            h@ == Seq::<Card>::empty(),
    {
        Hand { cards: Vec::new() }
    }

    /// Adds a card to the hand.
    pub fn add_card(&mut self, card: Card)
        ensures
            final(self)@ == old(self)@.push(card),
    {
        self.cards.push(card);
    }

    /// The cards currently held.
    pub fn cards(&self) -> (s: &[Card])
        ensures
            s@ == self@,
    {
        self.cards.as_slice()
    }

    /// Number of cards in the hand.
    pub fn len(&self) -> (n: usize)
        ensures
            n == self@.len(),
    {
        self.cards.len()
    }

    /// Whether the hand holds no cards.
    pub fn is_empty(&self) -> (b: bool)
        ensures
            b == (self@.len() == 0),
    {
        self.cards.len() == 0
    }

    /// Removes all cards from the hand.
    pub fn clear(&mut self)
        ensures
            final(self)@ == Seq::<Card>::empty(),
    {
        self.cards.clear();
    }

    /// The sum of base values and the number of aces.
    fn tally(&self) -> (r: (u32, u32))
        requires
            self.fits(),
        ensures
            r.0 == cards_total(self@),
            r.1 == ace_count(self@),
    {
        let mut total: u32 = 0;
        let mut i: usize = 0;
        while i < self.cards.len()
            invariant
                i <= self.cards@.len(),
                total == cards_total(self.cards@.take(i as int)),
                cards_total(self.cards@) <= u32::MAX,
            decreases self.cards@.len() - i,
        {
            proof {
                assert(self.cards@.take(i + 1).drop_last() =~= self.cards@.take(i as int));
                lemma_prefix_total(self.cards@, i + 1);
            }
            total = total + self.cards[i].value();
            i = i + 1;
        }
        assert(self.cards@.take(i as int) =~= self.cards@);
        let n = aces(self.cards.as_slice());
        proof {
            lemma_total_bounds(self.cards@);
        }
        (total, n as u32)
    }

    /// Runs the ace downgrade: while the total busts and an ace still counts
    /// 11, count that ace as 1. Returns the final total and the aces left at 11.
    fn downgrade(&self) -> (r: (u32, u32))
        requires
            self.fits(),
        ensures
            r.0 == hand_value(self@),
            r.1 == ace_count(self@) - aces_downgraded(self@),
    {
        let (mut total, mut aces_left) = self.tally();
        proof {
            lemma_total_bounds(self@);
        }
        let ghost t0 = total as int;
        let ghost a0 = aces_left as int;
        while total > BLACKJACK_VALUE && aces_left > 0
            invariant
                0 <= aces_left <= a0,
                total == t0 - 10 * (a0 - aces_left),
                t0 >= 11 * a0,
                total > 21 || aces_left == a0 || t0 - 10 * (a0 - aces_left - 1) > 21,
                t0 <= 21 ==> aces_left == a0,
                aces_left < a0 ==> t0 - 10 * (a0 - aces_left - 1) > 21,
                t0 == cards_total(self@),
                a0 == ace_count(self@),
            decreases aces_left,
        {
            total = total - 10;
            aces_left = aces_left - 1;
        }
        (total, aces_left)
    }

    /// Computes the best blackjack total, downgrading aces from 11 to 1
    /// while the total would bust.
    pub fn get_value(&self) -> (v: u32)
        requires
            self.fits(),
        ensures
            v == hand_value(self@),
    {
        let (total, _) = self.downgrade();
        total
    }

    /// Whether at least one ace still counts as 11 (a "soft" hand).
    pub fn is_soft(&self) -> (b: bool)
        requires
            self.fits(),
        ensures
            b == hand_is_soft(self@),
    {
        let (_, aces_left) = self.downgrade();
        aces_left > 0
    }

    /// Whether the hand is a natural blackjack (exactly 2 cards worth 21).
    pub fn is_blackjack(&self) -> (b: bool)
        requires
            self.fits(),
        ensures
            b == hand_is_blackjack(self@),
    {
        self.len() == 2 && self.get_value() == BLACKJACK_VALUE
    }

    /// Whether the hand's total exceeds 21.
    pub fn is_busted(&self) -> (b: bool)
        requires
            self.fits(),
        ensures
            b == hand_is_busted(self@),
    {
        self.get_value() > BLACKJACK_VALUE
    }

    /// The printed form of the hand, e.g. "A♠, K♥ = 21" or "(no cards)".
    pub fn description(&self) -> (s: String)
        requires
            self.fits(),
        ensures
            s@ == hand_description(self@),
    {
        if self.cards.len() == 0 {
            proof {
                reveal_strlit("(no cards)");
            }
            return String::from_str("(no cards)");
        }
        let mut s = self.cards[0].label();
        let mut i: usize = 1;
        assert(self.cards@.take(1).drop_last() =~= Seq::<Card>::empty());
        while i < self.cards.len()
            invariant
                1 <= i <= self.cards@.len(),
                s@ == labels_joined(self.cards@.take(i as int)),
            decreases self.cards@.len() - i,
        {
            proof {
                reveal_strlit(", ");
                assert(self.cards@.take(i + 1).drop_last() =~= self.cards@.take(i as int));
            }
            s.append(", ");
            let l = self.cards[i].label();
            s.append(l.as_str());
            i = i + 1;
        }
        assert(self.cards@.take(i as int) =~= self.cards@);
        proof {
            reveal_strlit(" = ");
        }
        s.append(" = ");
        let v = self.get_value();
        let digits = u64_to_decimal(v as u64);
        s.append(digits.as_str());
        s
    }
}

impl Default for Hand {
    fn default() -> (h: Hand)
        ensures
            h@ == Seq::<Card>::empty(),
    {
        Hand::new()
    }
}

} // verus!

verus! {

/// While some ace still counts 11 the hand is not busted: aces are only
/// kept at 11 as long as the total stays at 21 or below.
pub proof fn law_soft_hand_not_busted(cards: Seq<Card>)
    ensures
        hand_is_soft(cards) ==> hand_value(cards) <= 21,
{
}

/// A busted hand counts every ace as 1.
pub proof fn law_busted_hand_counts_aces_low(cards: Seq<Card>)
    ensures
        hand_is_busted(cards) ==> hand_value(cards) == cards_total(cards) - 10 * ace_count(cards)
            && !hand_is_soft(cards),
{
}

/// A natural is exactly an ace and a ten-valued card.
pub proof fn law_blackjack_is_ace_and_ten(cards: Seq<Card>)
    ensures
        hand_is_blackjack(cards) <==> cards.len() == 2 && (
        (cards[0].rank == Rank::Ace && rank_value(cards[1].rank) == 10)
            || (cards[1].rank == Rank::Ace && rank_value(cards[0].rank) == 10)),
{
    reveal_with_fuel(cards_total, 3);
    reveal_with_fuel(ace_count, 3);
    if cards.len() == 2 {
        let c1 = cards.drop_last();
        assert(c1.drop_last() =~= Seq::<Card>::empty());
        assert(c1.last() == cards[0]);
    }
}

} // verus!
