//! The [`Deck`] type: building, shuffling, and drawing cards.
use vstd::prelude::*;

use super::card::{rank_at, suit_at, Card, Rank, Suit};

verus! {

broadcast use vstd::seq_lib::group_to_multiset_ensures;

/// Number of cards in a standard deck.
pub const DECK_SIZE: usize = 52;

/// The standard 52-card deck in build order: suit by suit (♥ ♦ ♣ ♠), each
/// suit from Two up to Ace.
pub open spec fn standard_deck() -> Seq<Card> {
    Seq::new(52, |i: int| Card { rank: rank_at(i % 13), suit: suit_at(i / 13) })
}

/// One draw from a deck that refills itself: from a non-empty deck the top
/// (last) card is taken; from an empty deck a freshly shuffled standard deck
/// is taken and its top card drawn, so the drawn card and the remaining 51
/// cards together are exactly the standard deck.
pub open spec fn deck_step(before: Seq<Card>, after: Seq<Card>, card: Card) -> bool {
    if before.len() > 0 {
        card == before.last() && after == before.drop_last()
    } else {
        after.len() == 51 && after.push(card).to_multiset() == standard_deck().to_multiset()
    }
}

/// One plain draw: a non-empty deck gives up its top (last) card, an empty
/// deck gives nothing and stays empty.
pub open spec fn draw_result(before: Seq<Card>, after: Seq<Card>, c: Option<Card>) -> bool {
    if before.len() == 0 {
        c is None && after == before
    } else {
        c == Some(before.last()) && after == before.drop_last()
    }
}

/// `decks` are the successive states of a deck while the cards `drawn` are
/// taken one after the other: `decks[i]` becomes `decks[i + 1]` by drawing `drawn[i]`.
pub open spec fn draw_chain(decks: Seq<Seq<Card>>, drawn: Seq<Card>) -> bool {
    &&& decks.len() == drawn.len() + 1
    &&& forall|i: int| 0 <= i < drawn.len() ==> #[trigger] deck_step(decks[i], decks[i + 1], drawn[i])
}

/// `drawn` are the cards taken, in order, by successive refilling draws that
/// lead from deck `before` to deck `after`.
pub open spec fn draws_from(before: Seq<Card>, after: Seq<Card>, drawn: Seq<Card>) -> bool {
    exists|decks: Seq<Seq<Card>>|
        #[trigger] draw_chain(decks, drawn) && decks[0] == before && decks.last() == after
}

/// Extends a chain of draws by one more draw.
pub proof fn lemma_draws_extend(
    before: Seq<Card>,
    mid: Seq<Card>,
    after: Seq<Card>,
    drawn: Seq<Card>,
    card: Card,
)
    requires
        draws_from(before, mid, drawn),
        deck_step(mid, after, card),
    ensures
        draws_from(before, after, drawn.push(card)),
{
    let decks = choose|decks: Seq<Seq<Card>>|
        #[trigger] draw_chain(decks, drawn) && decks[0] == before && decks.last() == mid;
    let decks2 = decks.push(after);
    let drawn2 = drawn.push(card);
    assert forall|i: int| 0 <= i < drawn2.len() implies #[trigger] deck_step(
        decks2[i],
        decks2[i + 1],
        drawn2[i],
    ) by {
        if i < drawn.len() {
            assert(deck_step(decks[i], decks[i + 1], drawn[i]));
        }
    }
    assert(draw_chain(decks2, drawn2));
}

/// Chains two runs of draws.
pub proof fn lemma_draws_concat(
    a: Seq<Card>,
    b: Seq<Card>,
    c: Seq<Card>,
    first: Seq<Card>,
    second: Seq<Card>,
)
    requires
        draws_from(a, b, first),
        draws_from(b, c, second),
    ensures
        draws_from(a, c, first + second),
{
    let d1 = choose|decks: Seq<Seq<Card>>|
        #[trigger] draw_chain(decks, first) && decks[0] == a && decks.last() == b;
    let d2 = choose|decks: Seq<Seq<Card>>|
        #[trigger] draw_chain(decks, second) && decks[0] == b && decks.last() == c;
    let d = d1 + d2.drop_first();
    let drawn = first + second;
    assert forall|i: int| 0 <= i < drawn.len() implies #[trigger] deck_step(
        d[i],
        d[i + 1],
        drawn[i],
    ) by {
        if i < first.len() {
            assert(deck_step(d1[i], d1[i + 1], first[i]));
        } else {
            let j = i - first.len();
            assert(deck_step(d2[j], d2[j + 1], second[j]));
        }
    }
    assert(draw_chain(d, drawn));
}

/// No draws leave the deck as it is.
pub proof fn lemma_draws_none(d: Seq<Card>)
    ensures
        draws_from(d, d, Seq::<Card>::empty()),
{
    assert(draw_chain(seq![d], Seq::<Card>::empty()));
}

/// A single draw is a run of one draw.
pub proof fn lemma_draws_one(before: Seq<Card>, after: Seq<Card>, card: Card)
    requires
        deck_step(before, after, card),
    ensures
        draws_from(before, after, seq![card]),
{
    lemma_draws_none(before);
    lemma_draws_extend(before, before, after, Seq::<Card>::empty(), card);
    assert(Seq::<Card>::empty().push(card) =~= seq![card]);
}

/// Every card of the standard deck occurs in it exactly once.
pub proof fn lemma_standard_deck_distinct()
    ensures
        standard_deck().no_duplicates(),
        standard_deck().len() == 52,
{
    assert forall|i: int, j: int|
        0 <= i < 52 && 0 <= j < 52 && i != j implies standard_deck()[i] != standard_deck()[j] by {
        if standard_deck()[i] == standard_deck()[j] {
            assert(rank_at(i % 13) == rank_at(j % 13));
            assert(suit_at(i / 13) == suit_at(j / 13));
            assert(i % 13 == j % 13);
            assert(i / 13 == j / 13);
        }
    }
}

/// Randomly permutes the cards in place.
///
/// Calls `rand::seq::SliceRandom::shuffle` with `rand::thread_rng()`. The
/// contract claims only what the crate's source shows: the shuffle swaps
/// elements in place (a Fisher-Yates pass), so the result holds the same
/// cards with the same multiplicities. Which permutation comes out depends
/// on the random generator and is left unsaid.
#[verifier::external_body]
fn shuffle_cards(cards: &mut Vec<Card>)
    ensures
        final(cards)@.len() == old(cards)@.len(),
        final(cards)@.to_multiset() == old(cards)@.to_multiset(),
{
    rand::seq::SliceRandom::shuffle(cards.as_mut_slice(), &mut rand::thread_rng());
}

/// A standard 52-card deck.
#[derive(Debug)]
pub struct Deck {
    cards: Vec<Card>,
}

impl View for Deck {
    type V = Seq<Card>;

    closed spec fn view(&self) -> Seq<Card> {
        self.cards@
    }
}

impl Deck {
    /// Creates a fully shuffled deck.
    pub fn new() -> (d: Deck)
        ensures
            d@.len() == 52,
            d@.to_multiset() == standard_deck().to_multiset(),
    {
        let mut cards: Vec<Card> = Vec::new();
        let mut k: usize = 0;
        while k < DECK_SIZE
            invariant
                k <= 52,
                cards@ =~= standard_deck().take(k as int),
            decreases 52 - k,
        {
            let card = Card::new(Rank::from_index(k % 13), Suit::from_index(k / 13));
            cards.push(card);
            k = k + 1;
        }
        assert(standard_deck().take(52) =~= standard_deck());
        let mut deck = Deck { cards };
        deck.shuffle();
        deck
    }

    /// Shuffles the remaining cards into a random order.
    pub fn shuffle(&mut self)
        ensures
            final(self)@.len() == old(self)@.len(),
            final(self)@.to_multiset() == old(self)@.to_multiset(),
    {
        shuffle_cards(&mut self.cards);
    }

    /// Removes and returns the top card, or `None` if the deck is empty.
    pub fn draw(&mut self) -> (c: Option<Card>)
        ensures
            draw_result(old(self)@, final(self)@, c),
    {
        self.cards.pop()
    }

    /// Removes and returns the top card, reshuffling a fresh deck when the
    /// current one runs out. Use this when play must always continue.
    pub fn draw_card(&mut self) -> (c: Card)
        ensures
            deck_step(old(self)@, final(self)@, c),
    {
        match self.cards.pop() {
            Some(card) => card,
            None => {
                *self = Deck::new();
                let ghost full = self.cards@;
                let fresh = self.cards.pop();
                match fresh {
                    Some(card) => {
                        assert(self.cards@.push(card) =~= full);
                        card
                    },
                    None => {
                        assert(false);
                        Card::new(Rank::Ace, Suit::Spades)
                    },
                }
            },
        }
    }

    /// Number of cards left in the deck.
    pub fn remaining(&self) -> (n: usize)
        ensures
            n == self@.len(),
    {
        self.cards.len()
    }
}

impl Default for Deck {
    fn default() -> (d: Deck)
        ensures
            d@.len() == 52,
            d@.to_multiset() == standard_deck().to_multiset(),
    {
        Self::new()
    }
}

} // verus!

verus! {

/// A deck that holds only standard cards, none twice, still does so after
/// any refilling draw: drawing takes a card away, and a refill brings back a
/// standard deck.
pub proof fn lemma_draw_keeps_standard(before: Seq<Card>, after: Seq<Card>, card: Card)
    requires
        before.to_multiset().subset_of(standard_deck().to_multiset()),
        deck_step(before, after, card),
    ensures
        after.to_multiset().subset_of(standard_deck().to_multiset()),
        after.push(card).to_multiset().subset_of(standard_deck().to_multiset()),
{
    broadcast use vstd::seq_lib::group_to_multiset_ensures;
    broadcast use vstd::multiset::group_multiset_axioms;
    if before.len() > 0 {
        assert(after.push(card) =~= before);
    }
    assert(after.push(card).to_multiset() =~= after.to_multiset().insert(card));
    assert forall|c: Card| after.to_multiset().count(c) <= standard_deck().to_multiset().count(c) by {
        assert(after.to_multiset().count(c) <= after.push(card).to_multiset().count(c));
    }
}

/// A deck with only standard cards holds no card twice.
pub proof fn lemma_standard_subset_distinct(d: Seq<Card>)
    requires
        d.to_multiset().subset_of(standard_deck().to_multiset()),
    ensures
        d.no_duplicates(),
{
    broadcast use vstd::seq_lib::group_to_multiset_ensures;
    lemma_standard_deck_distinct();
    standard_deck().lemma_multiset_has_no_duplicates();
    assert forall|c: Card| d.to_multiset().contains(c) implies d.to_multiset().count(c) == 1 by {
        assert(d.to_multiset().count(c) <= standard_deck().to_multiset().count(c));
    }
    d.lemma_multiset_has_no_duplicates_conv();
}

/// After `n` plain draws from a full deck `decks[0]`, the deck is its bottom
/// `52 - n` cards and the `k`-th draw gave the card `k` places from the top.
proof fn lemma_draw_run(decks: Seq<Seq<Card>>, drawn: Seq<Option<Card>>, n: int)
    requires
        0 <= n <= 52,
        decks.len() > n,
        drawn.len() >= n,
        decks[0].len() == 52,
        forall|k: int| 0 <= k < n ==> #[trigger] draw_result(decks[k], decks[k + 1], drawn[k]),
    ensures
        decks[n] == decks[0].take(52 - n),
        forall|k: int| 0 <= k < n ==> #[trigger] drawn[k] == Some(decks[0][51 - k]),
    decreases n,
{
    if n == 0 {
        assert(decks[0].take(52) =~= decks[0]);
    } else {
        lemma_draw_run(decks, drawn, n - 1);
        let k = n - 1;
        assert(draw_result(decks[k], decks[k + 1], drawn[k]));
        assert(decks[0].take(52 - (n - 1)).drop_last() =~= decks[0].take(52 - n));
    }
}

/// Drawing a new deck to the end: each of the first 52 draws gives a card
/// and leaves one card fewer, the 52 cards drawn are pairwise different and
/// include every card of the standard deck, and the 53rd draw gives nothing
/// and leaves the deck empty.
pub proof fn law_new_deck_draws_each_card_once(decks: Seq<Seq<Card>>, drawn: Seq<Option<Card>>)
    requires
        decks.len() == 54,
        drawn.len() == 53,
        decks[0].len() == 52,
        decks[0].to_multiset() == standard_deck().to_multiset(),
        forall|k: int| 0 <= k < 53 ==> #[trigger] draw_result(decks[k], decks[k + 1], drawn[k]),
    ensures
        forall|k: int|
            0 <= k < 52 ==> (#[trigger] drawn[k]) is Some && decks[k + 1].len() == 51 - k,
        forall|i: int, j: int| 0 <= i < j < 52 ==> drawn[i] != drawn[j],
        forall|c: Card|
            standard_deck().contains(c) ==> exists|k: int| 0 <= k < 52 && #[trigger] drawn[k] == Some(c),
        drawn[52] is None,
        decks[53].len() == 0,
{
    broadcast use vstd::seq_lib::group_to_multiset_ensures;
    let d = decks[0];
    lemma_draw_run(decks, drawn, 52);
    assert(d.take(0).len() == 0);
    let last: int = 52;
    assert(draw_result(decks[last], decks[last + 1], drawn[last]));
    assert forall|k: int| 0 <= k < 52 implies (#[trigger] drawn[k]) is Some && decks[k + 1].len() == 51 - k by {
        lemma_draw_run(decks, drawn, k + 1);
    }
    assert(d.to_multiset().subset_of(standard_deck().to_multiset()));
    lemma_standard_subset_distinct(d);
    assert forall|i: int, j: int| 0 <= i < j < 52 implies drawn[i] != drawn[j] by {
        assert(drawn[i] == Some(d[51 - i]));
        assert(drawn[j] == Some(d[51 - j]));
    }
    assert forall|c: Card| standard_deck().contains(c) implies exists|k: int|
        0 <= k < 52 && #[trigger] drawn[k] == Some(c) by {
        assert(standard_deck().to_multiset().count(c) > 0);
        assert(d.to_multiset().count(c) > 0);
        assert(d.contains(c));
        let i = choose|i: int| 0 <= i < d.len() && d[i] == c;
        assert(drawn[51 - i] == Some(d[i]));
    }
}

} // verus!
