//! The shoe: all fifty-two cards in a fixed order, shuffled once and then
//! drawn from one end until it is empty.

use vstd::prelude::*;
use rand::seq::SliceRandom;
use crate::card::{Card, Face, Suit};

verus! {

/// The suit at position `k` of the order diamond, club, heart, spade.
pub open spec fn suit_at(k: int) -> Suit {
    if k == 0 {
        Suit::Diamond
    } else if k == 1 {
        Suit::Club
    } else if k == 2 {
        Suit::Heart
    } else {
        Suit::Spade
    }
}

/// The card at position `k` of a fresh shoe: ranks ascend, and within a rank
/// the suits follow `suit_at`.
pub open spec fn fresh_card(k: int) -> Card {
    Card { number: (k / 4 + 1) as u8, suit: suit_at(k % 4), face: Face::Unset }
}

/// A fresh shoe, bottom first: ace of diamonds at the bottom, king of spades
/// on top.
pub open spec fn fresh_deck() -> Seq<Card> {
    Seq::new(52, |k: int| fresh_card(k))
}

/// The shoe. Its last card is the top one, the next to be drawn.
#[derive(Debug)]
pub struct Deck {
    cards: Vec<Card>,
}

impl View for Deck {
    type V = Seq<Card>;

    closed spec fn view(&self) -> Seq<Card> {
        self.cards@
    }
}

/// Permutes `cards` in place with `rand`'s `SliceRandom::shuffle`, driven by
/// `rand::thread_rng()`. The shuffle only ever swaps two elements of the
/// slice, so the same cards remain, each as often as before; in which order
/// they come out is left open. Not covered: `thread_rng` aborts the thread if
/// the operating system cannot seed it.
#[verifier::external_body]
fn shuffle_cards(cards: &mut Vec<Card>)
    ensures
        final(cards)@.to_multiset() == old(cards)@.to_multiset(),
        final(cards)@.len() == old(cards)@.len(),
{
    let mut rng = rand::thread_rng();
    cards.shuffle(&mut rng);
}

impl Deck {
    /// All fifty-two cards, none of them placed, in the order of
    /// `fresh_deck`.
    pub fn new() -> (deck: Deck)
        ensures
            deck@ == fresh_deck(),
    {
        let mut deck = Deck { cards: Vec::new() };
        let mut i: u8 = 1;
        while i <= 13
            invariant
                1 <= i <= 14,
                deck.cards@ == fresh_deck().take(4 * (i - 1)),
            decreases 14 - i,
        {
            let mut j: u8 = 1;
            while j <= 4
                invariant
                    1 <= i <= 13,
                    1 <= j <= 5,
                    deck.cards@ == fresh_deck().take(4 * (i - 1) + (j - 1)),
                decreases 5 - j,
            {
                let suit = if j == 1 {
                    Suit::Diamond
                } else if j == 2 {
                    Suit::Club
                } else if j == 3 {
                    Suit::Heart
                } else {
                    Suit::Spade
                };
                deck.cards.push(Card::new(i, suit));
                assert(deck.cards@ == fresh_deck().take(4 * (i - 1) + j));
                j += 1;
            }
            i += 1;
        }
        assert(fresh_deck().take(52) == fresh_deck());
        deck
    }

    /// Puts the cards in a random order. Which order is not determined; the
    /// cards are the same.
    pub fn shuffle(&mut self)
        ensures
            final(self)@.to_multiset() == old(self)@.to_multiset(),
            final(self)@.len() == old(self)@.len(),
    {
        shuffle_cards(&mut self.cards);
    }

    /// Whether no card is left.
    pub fn is_empty(&self) -> (empty: bool)
        ensures
            empty == (self@.len() == 0),
    {
        self.cards.is_empty()
    }

    /// How many cards are left.
    pub fn len(&self) -> (n: usize)
        ensures
            n == self@.len(),
    {
        self.cards.len()
    }

    /// Takes the top card off the shoe. The shoe must not be empty: ask
    /// `is_empty` first.
    pub fn draw_card(&mut self) -> (card: Card)
        requires
            old(self)@.len() > 0,
        ensures
            card == old(self)@.last(),
            final(self)@ == old(self)@.drop_last(),
    {
        self.cards.pop().unwrap()
    }
}

} // verus!
