//! What a renderer gets to see of a board: typed data, no text. A card that
//! lies face down shows neither rank nor suit.

use vstd::prelude::*;
use crate::board::GameBoard;
use crate::card::{Card, Face, Suit};
use crate::deck::suit_at;
use crate::rules::Table;

verus! {

/// One card as the player sees it.
#[derive(Clone, Copy, Debug, PartialEq, Eq, Structural)]
pub enum Sight {
    /// A card that lies face down.
    Hidden,
    /// A card that shows what it is.
    Open(Card),
}

/// One foundation pile as the player sees it.
#[derive(Clone, Copy, Debug, PartialEq, Eq, Structural)]
pub struct FoundationMark {
    /// The suit that the pile is for.
    pub suit: Suit,
    /// Whether a card lies on it.
    pub occupied: bool,
}

/// The board as the player sees it.
#[derive(Clone, Debug, PartialEq, Eq)]
pub struct Snapshot {
    /// The seven tableau piles, bottom card first.
    pub tableau: Vec<Vec<Sight>>,
    /// The four foundation piles.
    pub foundation: Vec<FoundationMark>,
    /// How many cards the stock holds.
    pub stock_count: usize,
    /// How many cards the waste holds.
    pub waste_count: usize,
    /// The top card of the waste, if it holds one.
    pub waste_top: Option<Sight>,
}

/// What is to be seen of `card`: nothing if it lies face down, else the card.
pub open spec fn sight_of(card: Card) -> Sight {
    if card.face == Face::FaceDown {
        Sight::Hidden
    } else {
        Sight::Open(card)
    }
}

/// What is to be seen of a pile, card by card.
pub open spec fn sights_of(pile: Seq<Card>) -> Seq<Sight> {
    pile.map_values(|card: Card| sight_of(card))
}

/// The mark of foundation pile `s`, which is for the suit at that position.
pub open spec fn mark_of(table: Table, s: int) -> FoundationMark {
    FoundationMark { suit: suit_at(s), occupied: table.foundation[s].len() > 0 }
}

impl Snapshot {
    /// The snapshot shows `table` and nothing else.
    pub open spec fn shows(&self, table: Table) -> bool {
        &&& self.tableau@.len() == 7
        &&& forall|j: int|
            0 <= j < 7 ==> (#[trigger] self.tableau@[j])@ == sights_of(table.tableau[j])
        &&& self.foundation@.len() == 4
        &&& forall|s: int| 0 <= s < 4 ==> #[trigger] self.foundation@[s] == mark_of(table, s)
        &&& self.stock_count == table.stock.len()
        &&& self.waste_count == table.waste.len()
        &&& self.waste_top == (if table.waste.len() > 0 {
            Some(sight_of(table.waste.last()))
        } else {
            None
        })
    }
}

/// What is to be seen of `card`.
fn see(card: &Card) -> (sight: Sight)
    ensures
        sight == sight_of(*card),
{
    if card.face == Face::FaceDown {
        Sight::Hidden
    } else {
        Sight::Open(*card)
    }
}

/// What is to be seen of a pile, card by card.
fn see_pile(pile: &Vec<Card>) -> (sights: Vec<Sight>)
    ensures
        sights@ == sights_of(pile@),
{
    let mut sights: Vec<Sight> = Vec::new();
    let mut k: usize = 0;
    while k < pile.len()
        invariant
            k <= pile.len(),
            sights@ == sights_of(pile@.take(k as int)),
        decreases pile.len() - k,
    {
        sights.push(see(&pile[k]));
        k += 1;
        assert(sights@ =~= sights_of(pile@.take(k as int)));
    }
    assert(pile@.take(pile.len() as int) =~= pile@);
    sights
}

/// The suit that foundation pile `s` is for.
fn foundation_suit(s: usize) -> (suit: Suit)
    requires
        s < 4,
    ensures
        suit == suit_at(s as int),
{
    if s == 0 {
        Suit::Diamond
    } else if s == 1 {
        Suit::Club
    } else if s == 2 {
        Suit::Heart
    } else {
        Suit::Spade
    }
}

impl GameBoard {
    /// The board as the player sees it: the tableau with its face-down
    /// cards hidden, a mark for each foundation pile, the size of the stock,
    /// and the size and top card of the waste.
    pub fn snapshot(&self) -> (snapshot: Snapshot)
        ensures
            snapshot.shows(self@),
    {
        let mut tableau: Vec<Vec<Sight>> = Vec::new();
        let mut j: usize = 0;
        while j < 7
            invariant
                j <= 7,
                tableau@.len() == j,
                forall|p: int|
                    0 <= p < j ==> (#[trigger] tableau@[p])@ == sights_of(self@.tableau[p]),
            decreases 7 - j,
        {
            tableau.push(see_pile(&self.card_piles[j]));
            j += 1;
        }
        let mut foundation: Vec<FoundationMark> = Vec::new();
        let mut s: usize = 0;
        while s < 4
            invariant
                s <= 4,
                foundation@.len() == s,
                forall|p: int| 0 <= p < s ==> #[trigger] foundation@[p] == mark_of(self@, p),
            decreases 4 - s,
        {
            foundation.push(
                FoundationMark { suit: foundation_suit(s), occupied: self.ace_piles[s].len() > 0 },
            );
            s += 1;
        }
        let waste_count = self.discard.len();
        let waste_top = if waste_count > 0 {
            Some(see(&self.discard[waste_count - 1]))
        } else {
            None
        };
        Snapshot { tableau, foundation, stock_count: self.hand.len(), waste_count, waste_top }
    }
}

} // verus!
