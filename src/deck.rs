use rand::rngs::StdRng;
use rand::seq::SliceRandom;
use vstd::arithmetic::div_mod::lemma_fundamental_div_mod_converse;
use vstd::prelude::*;

use crate::card::{canonical_card, canonical_deck, ranks_in_order, suits_in_order, Card, Rank, Suit};

verus! {

/// rand's seedable generator, which callers hand to the shuffles; opaque here.
#[verifier::external_type_specification]
#[verifier::external_body]
pub struct ExStdRng(StdRng);

/// Relies on rand's `SliceRandom::shuffle` for slices: it permutes the elements
/// in place by swaps, so the cards after the call are the cards before it.
#[verifier::external_body]
fn shuffle_cards(cards: &mut Vec<Card>, rng: &mut StdRng)
    ensures
        final(cards)@.to_multiset() == old(cards)@.to_multiset(),
{
    cards.as_mut_slice().shuffle(rng);
}

/// An ordered pile of cards. The last element of the view is the top card.
pub struct Deck {
    cards: Vec<Card>,
}

impl View for Deck {
    type V = Seq<Card>;

    closed spec fn view(&self) -> Seq<Card> {
        self.cards@
    }
}

impl Deck {
    /// A fresh deck of all 52 cards in suit-major, rank-minor order; the first
    /// card of that order is at the bottom.
    pub fn new() -> (d: Deck)
        ensures
            d@ == canonical_deck(),
    {
        let suits = Suit::all();
        let ranks = Rank::all();
        let mut cards: Vec<Card> = Vec::new();
        let mut s: usize = 0;
        while s < 4
            invariant
                s <= 4,
                suits@ == suits_in_order(),
                ranks@ == ranks_in_order(),
                cards@.len() == 13 * s,
                forall|i: int| 0 <= i < cards@.len() ==> cards@[i] == canonical_card(i),
            decreases 4 - s,
        {
            let mut r: usize = 0;
            while r < 13
                invariant
                    s < 4,
                    r <= 13,
                    suits@ == suits_in_order(),
                    ranks@ == ranks_in_order(),
                    cards@.len() == 13 * s + r,
                    forall|i: int| 0 <= i < cards@.len() ==> cards@[i] == canonical_card(i),
                decreases 13 - r,
            {
                proof {
                    lemma_fundamental_div_mod_converse(13 * s + r, 13, s as int, r as int);
                }
                cards.push(Card { rank: ranks[r], suit: suits[s] });
                r = r + 1;
            }
            s = s + 1;
        }
        assert(cards@ =~= canonical_deck());
        Deck { cards }
    }

    /// A pile holding exactly `cards`, the last one on top.
    pub fn from_cards(cards: Vec<Card>) -> (d: Deck)
        ensures
            d@ == cards@,
    {
        Deck { cards }
    }

    /// The cards of the pile, bottom first.
    pub fn cards(&self) -> (r: &Vec<Card>)
        ensures
            r@ == self@,
    {
        &self.cards
    }

    /// Puts the cards in an order that `rng` picks; which cards the pile holds
    /// does not change.
    pub fn shuffle(&mut self, rng: &mut StdRng)
        ensures
            final(self)@.to_multiset() == old(self)@.to_multiset(),
    {
        shuffle_cards(&mut self.cards, rng);
    }

    /// Removes and returns the top card, or `None` when the pile is empty.
    pub fn draw(&mut self) -> (r: Option<Card>)
        ensures
            old(self)@.len() == 0 ==> r is None && final(self)@ == old(self)@,
            old(self)@.len() > 0 ==> r == Some(old(self)@.last()) && final(self)@
                == old(self)@.drop_last(),
    {
        self.cards.pop()
    }

    pub fn len(&self) -> (n: usize)
        ensures
            n == self@.len(),
    {
        self.cards.len()
    }

    pub fn is_empty(&self) -> (b: bool)
        ensures
            b == (self@.len() == 0),
    {
        self.cards.len() == 0
    }
}

impl Default for Deck {
    fn default() -> (d: Deck)
        ensures
            d@ == canonical_deck(),
    {
        Deck::new()
    }
}

} // verus!
