//! The board as a mathematical value, and the rules of the game as functions
//! on it. The executable board is specified against these.

use vstd::prelude::*;
use vstd::multiset::Multiset;
use crate::card::{Card, Face, Suit};
use crate::deck::fresh_deck;

verus! {

/// Why a card could not be moved from the waste to a tableau pile.
#[derive(Clone, Copy, Debug, PartialEq, Eq, Structural)]
pub enum MoveError {
    /// The waste holds no card.
    EmptyWaste,
    /// The pile that was named holds no card to build on.
    InvalidDestination,
    /// The card is not one rank below the pile's top card, or has its colour.
    IllegalMove,
}

/// How many cards a draw takes from the stock at most.
pub const DRAW_SIZE: usize = 3;

/// The piles of a game. In every pile the last card is the top one.
pub struct Table {
    /// The seven building piles.
    pub tableau: Seq<Seq<Card>>,
    /// The four piles that are built up by suit.
    pub foundation: Seq<Seq<Card>>,
    /// The pile that is drawn from.
    pub stock: Seq<Card>,
    /// The pile that the draws go to.
    pub waste: Seq<Card>,
}

/// The cards of `cards`, each by rank and suit, as often as it occurs.
pub open spec fn identities(cards: Seq<Card>) -> Multiset<(u8, Suit)> {
    cards.map_values(|c: Card| c.identity()).to_multiset()
}

/// Every card of a pack once: the thirteen ranks in each of the four suits.
pub open spec fn full_pack() -> Multiset<(u8, Suit)> {
    identities(fresh_deck())
}

/// The cards of `cards` in the same order, all lying as `face` says.
pub open spec fn all_turned(cards: Seq<Card>, face: Face) -> Seq<Card> {
    cards.map_values(|c: Card| c.turned(face))
}

/// How many cards have been dealt when pile `j` begins: 0, 1, 3, 6, ...
pub open spec fn pile_start(j: int) -> int
    decreases j,
{
    if j <= 0 {
        0
    } else {
        pile_start(j - 1) + j
    }
}

/// Where each of the seven piles begins, and that they take 28 cards in all.
pub proof fn lemma_pile_starts()
    ensures
        pile_start(0) == 0,
        pile_start(1) == 1,
        pile_start(2) == 3,
        pile_start(3) == 6,
        pile_start(4) == 10,
        pile_start(5) == 15,
        pile_start(6) == 21,
        pile_start(7) == 28,
{
    reveal_with_fuel(pile_start, 8);
}

/// The `n`-th card that is drawn from a shoe `shoe`: its top card is the 0-th.
pub open spec fn nth_drawn(shoe: Seq<Card>, n: int) -> Card {
    shoe[shoe.len() - 1 - n]
}

/// Pile `j` of the tableau after dealing from `shoe`: the `j + 1` cards drawn
/// from position `pile_start(j)` on, the first at the bottom, all face down
/// but the last.
pub open spec fn dealt_pile(shoe: Seq<Card>, j: int) -> Seq<Card> {
    Seq::new(
        (j + 1) as nat,
        |i: int|
            nth_drawn(shoe, pile_start(j) + i).turned(
                if i == j {
                    Face::FaceUp
                } else {
                    Face::FaceDown
                },
            ),
    )
}

/// The stock after dealing from `shoe`: what is left after the tableau's 28
/// cards, in the order drawn, face up.
pub open spec fn dealt_stock(shoe: Seq<Card>) -> Seq<Card> {
    Seq::new((shoe.len() - 28) as nat, |k: int| nth_drawn(shoe, 28 + k).turned(Face::FaceUp))
}

/// Whether `moving` may be laid on `top`: one rank lower, other colour.
pub open spec fn fits_on(moving: Card, top: Card) -> bool {
    moving.number + 1 == top.number && moving.spec_colour() != top.spec_colour()
}

/// One step of play: a draw, or an attempt to move the top card of the waste
/// to the tableau pile at the given position.
pub enum Action {
    Draw,
    Place(int),
}

impl Action {
    /// A move names one of the seven piles.
    pub open spec fn wf(self) -> bool {
        match self {
            Action::Draw => true,
            Action::Place(pile) => 0 <= pile < 7,
        }
    }
}

impl Table {
    /// Seven tableau piles and four foundation piles.
    pub open spec fn wf(self) -> bool {
        self.tableau.len() == 7 && self.foundation.len() == 4
    }

    /// All cards on the table by rank and suit, each as often as it occurs.
    pub open spec fn identities(self) -> Multiset<(u8, Suit)> {
        identities(self.tableau.flatten()).add(identities(self.foundation.flatten())).add(
            identities(self.stock),
        ).add(identities(self.waste))
    }

    /// The table holds every card of the pack exactly once.
    pub open spec fn is_complete(self) -> bool {
        self.identities() == full_pack()
    }

    /// The table after dealing from `shoe`, which holds at least 28 cards.
    pub open spec fn dealt(shoe: Seq<Card>) -> Table {
        Table {
            tableau: Seq::new(7, |j: int| dealt_pile(shoe, j)),
            foundation: Seq::new(4, |s: int| Seq::empty()),
            stock: dealt_stock(shoe),
            waste: Seq::empty(),
        }
    }

    /// How many cards the next draw takes from the stock.
    pub open spec fn draw_count(self) -> nat {
        if self.stock.len() < DRAW_SIZE {
            self.stock.len()
        } else {
            DRAW_SIZE as nat
        }
    }

    /// The table after a draw. While the stock has cards, its top ones go to
    /// the waste one by one, face up, so that the last taken lies on top.
    /// With an empty stock the waste goes back, top card first, and becomes
    /// the stock; the cards stay as they face.
    pub open spec fn draw(self) -> Table {
        let n = self.draw_count();
        if n >= 1 {
            let rest = self.stock.len() - n;
            Table {
                stock: self.stock.take(rest),
                waste: self.waste + all_turned(self.stock.skip(rest).reverse(), Face::FaceUp),
                ..self
            }
        } else {
            Table { stock: self.waste.reverse(), waste: Seq::empty(), ..self }
        }
    }

    /// What keeps the top card of the waste from going to pile `pile`, if
    /// anything does.
    pub open spec fn refusal(self, pile: int) -> Option<MoveError> {
        if self.waste.len() == 0 {
            Some(MoveError::EmptyWaste)
        } else if self.tableau[pile].len() == 0 {
            Some(MoveError::InvalidDestination)
        } else if !fits_on(self.waste.last(), self.tableau[pile].last()) {
            Some(MoveError::IllegalMove)
        } else {
            None
        }
    }

    /// The table after an attempt to move the top card of the waste to pile
    /// `pile`: unchanged if the move is refused, else with that card, face
    /// up, on top of the pile.
    pub open spec fn place(self, pile: int) -> Table {
        if self.refusal(pile) is Some {
            self
        } else {
            Table {
                tableau: self.tableau.update(
                    pile,
                    self.tableau[pile].push(self.waste.last().turned(Face::FaceUp)),
                ),
                waste: self.waste.drop_last(),
                ..self
            }
        }
    }

    /// The table after one step of play.
    pub open spec fn step(self, action: Action) -> Table {
        match action {
            Action::Draw => self.draw(),
            Action::Place(pile) => self.place(pile),
        }
    }

    /// The table after the steps of `actions`, the first of them first.
    pub open spec fn play(self, actions: Seq<Action>) -> Table
        decreases actions.len(),
    {
        if actions.len() == 0 {
            self
        } else {
            self.play(actions.drop_last()).step(actions.last())
        }
    }

    /// The table was dealt from a shoe that held the cards of a fresh one in
    /// some order.
    pub open spec fn is_shuffled_deal(self) -> bool {
        exists|shoe: Seq<Card>|
            shoe.to_multiset() == fresh_deck().to_multiset() && self == #[trigger] Table::dealt(
                shoe,
            )
    }

    /// The shape of a table right after the deal: pile `j` holds `j + 1`
    /// cards, of which only the last lies face up.
    pub open spec fn has_deal_shape(self) -> bool {
        &&& self.wf()
        &&& forall|j: int| 0 <= j < 7 ==> (#[trigger] self.tableau[j]).len() == j + 1
        &&& forall|j: int, i: int|
            0 <= i <= j < 7 ==> (#[trigger] self.tableau[j][i]).face == (if i == j {
                Face::FaceUp
            } else {
                Face::FaceDown
            })
        &&& forall|s: int| 0 <= s < 4 ==> (#[trigger] self.foundation[s]).len() == 0
        &&& self.waste.len() == 0
    }
}

} // verus!
