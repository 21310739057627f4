//! The board that a game is played on.

use vstd::prelude::*;
use crate::card::{Card, Face};
use crate::deck::Deck;
use crate::laws::{lemma_draw_conserves, lemma_place_conserves, lemma_shuffled_deal};
use crate::rules::{
    DRAW_SIZE, MoveError, Table, all_turned, dealt_pile, dealt_stock, lemma_pile_starts,
    pile_start,
};

verus! {

/// One of the seven tableau piles, by its position from 0 to 6.
#[derive(Clone, Copy, Debug, PartialEq, Eq)]
pub struct PileIndex {
    index: usize,
}

impl PileIndex {
    #[verifier::type_invariant]
    spec fn in_range(self) -> bool {
        self.index < 7
    }

    /// The pile's position.
    pub closed spec fn position(self) -> int {
        self.index as int
    }

    /// The pile at position `index`, if there is one.
    pub fn new(index: usize) -> (pile: Option<PileIndex>)
        ensures
            index < 7 ==> pile is Some && pile.unwrap().position() == index,
            index >= 7 ==> pile is None,
    {
        if index < 7 {
            Some(PileIndex { index })
        } else {
            None
        }
    }

    /// The pile that a player names by `letter`: `a` is pile 0, `g` pile 6.
    pub fn from_letter(letter: char) -> (pile: Option<PileIndex>)
        ensures
            'a' <= letter <= 'g' ==> pile is Some && pile.unwrap().position() == letter as int
                - 'a' as int,
            !('a' <= letter <= 'g') ==> pile is None,
    {
        if 'a' <= letter && letter <= 'g' {
            Some(PileIndex { index: (letter as u32 - 'a' as u32) as usize })
        } else {
            None
        }
    }

    /// The pile's position, which is below seven.
    pub fn get(self) -> (index: usize)
        ensures
            index == self.position(),
            index < 7,
    {
        proof {
            use_type_invariant(&self);
        }
        self.index
    }
}

/// The piles of a game. In every pile the last card is the top one.
#[derive(Clone, Debug, PartialEq, Eq)]
pub struct GameBoard {
    /// The seven tableau piles.
    pub card_piles: [Vec<Card>; 7],
    /// The four foundation piles.
    pub ace_piles: [Vec<Card>; 4],
    /// The stock.
    pub hand: Vec<Card>,
    /// The waste.
    pub discard: Vec<Card>,
}

impl View for GameBoard {
    type V = Table;

    open spec fn view(&self) -> Table {
        Table {
            tableau: Seq::new(7, |j: int| self.card_piles[j]@),
            foundation: Seq::new(4, |s: int| self.ace_piles[s]@),
            stock: self.hand@,
            waste: self.discard@,
        }
    }
}

impl GameBoard {
    /// Deals from `deck`, which must hold at least the 28 cards of the
    /// tableau, until it is empty. Pile after pile is filled from the top of
    /// the shoe, pile `j` with `j + 1` cards of which only the last lies face
    /// up. What is left becomes the stock.
    pub fn new(deck: &mut Deck) -> (board: GameBoard)
        requires
            old(deck)@.len() >= 28,
        ensures
            board@ == Table::dealt(old(deck)@),
            final(deck)@.len() == 0,
    {
        let mut card_piles: [Vec<Card>; 7] = [
            Vec::new(),
            Vec::new(),
            Vec::new(),
            Vec::new(),
            Vec::new(),
            Vec::new(),
            Vec::new(),
        ];
        let ace_piles: [Vec<Card>; 4] = [Vec::new(), Vec::new(), Vec::new(), Vec::new()];
        let mut hand: Vec<Card> = Vec::new();
        let discard: Vec<Card> = Vec::new();
        let ghost shoe = deck@;

        let mut j: usize = 0;
        while j < 7
            invariant
                j <= 7,
                shoe.len() >= 28,
                deck@ == shoe.take(shoe.len() - pile_start(j as int)),
                forall|p: int| 0 <= p < j ==> (#[trigger] card_piles[p])@ == dealt_pile(shoe, p),
                forall|p: int| j <= p < 7 ==> (#[trigger] card_piles[p])@.len() == 0,
            decreases 7 - j,
        {
            proof {
                lemma_pile_starts();
            }
            let mut i: usize = 0;
            while i < 7
                invariant
                    j < 7,
                    i <= 7,
                    shoe.len() >= 28,
                    pile_start(j as int) + j + 1 <= 28,
                    pile_start(j as int) >= 0,
                    card_piles[j as int]@.len() == (if i <= j { i } else { (j + 1) as usize }),
                    deck@ == shoe.take(
                        shoe.len() - pile_start(j as int) - card_piles[j as int]@.len(),
                    ),
                    forall|r: int|
                        0 <= r < card_piles[j as int]@.len() ==> card_piles[j as int]@[r]
                            == dealt_pile(shoe, j as int)[r],
                    forall|p: int|
                        0 <= p < j ==> (#[trigger] card_piles[p])@ == dealt_pile(shoe, p),
                    forall|p: int| j < p < 7 ==> (#[trigger] card_piles[p])@.len() == 0,
                decreases 7 - i,
            {
                if i <= j {
                    let mut card = deck.draw_card();
                    if i == j {
                        card.face = Face::FaceUp;
                    } else {
                        card.face = Face::FaceDown;
                    }
                    card_piles[j].push(card);
                }
                i += 1;
            }
            assert(card_piles[j as int]@ =~= dealt_pile(shoe, j as int));
            j += 1;
        }
        proof {
            lemma_pile_starts();
        }
        while !deck.is_empty()
            invariant
                shoe.len() >= 28,
                hand@.len() <= shoe.len() - 28,
                deck@ == shoe.take(shoe.len() - 28 - hand@.len()),
                forall|k: int| 0 <= k < hand@.len() ==> hand@[k] == dealt_stock(shoe)[k],
            decreases deck@.len(),
        {
            let mut card = deck.draw_card();
            card.face = Face::FaceUp;
            hand.push(card);
        }
        let board = GameBoard { card_piles, ace_piles, hand, discard };
        assert(board@.stock =~= dealt_stock(shoe));
        assert(board@.tableau =~= Table::dealt(shoe).tableau);
        assert(board@.foundation =~= Table::dealt(shoe).foundation);
        board
    }

    /// Sets up a game: takes a fresh shoe, shuffles it and deals from it.
    /// Which card lies where is left to the shuffle; every card of the pack
    /// lies somewhere, once.
    pub fn deal() -> (board: GameBoard)
        ensures
            board@.is_shuffled_deal(),
            board@.has_deal_shape(),
            board@.stock.len() == 24,
            board@.is_complete(),
    {
        let mut deck = Deck::new();
        deck.shuffle();
        let ghost shoe = deck@;
        let board = GameBoard::new(&mut deck);
        proof {
            lemma_shuffled_deal(shoe);
        }
        board
    }

    /// One turn of drawing. While the stock has cards, up to three of them
    /// go from its top to the waste, face up. With an empty stock the whole
    /// waste is turned over and becomes the stock. With both empty nothing
    /// happens.
    pub fn draw_cards(&mut self)
        ensures
            final(self)@ == old(self)@.draw(),
            final(self)@.identities() == old(self)@.identities(),
    {
        let ghost before = self@;
        proof {
            lemma_draw_conserves(before);
        }
        let stock_size = self.hand.len();
        let n = if stock_size < DRAW_SIZE {
            stock_size
        } else {
            DRAW_SIZE
        };
        if n >= 1 {
            let mut taken: usize = 0;
            while taken < n
                invariant
                    taken <= n <= before.stock.len(),
                    self.card_piles == old(self).card_piles,
                    self.ace_piles == old(self).ace_piles,
                    self.hand@ == before.stock.take(before.stock.len() - taken),
                    self.discard@ == before.waste + all_turned(
                        before.stock.skip(before.stock.len() - taken).reverse(),
                        Face::FaceUp,
                    ),
                decreases n - taken,
            {
                let mut card = self.hand.pop().unwrap();
                card.face = Face::FaceUp;
                self.discard.push(card);
                taken += 1;
            }
        } else {
            let waste_size = self.discard.len();
            let mut moved: usize = 0;
            while moved < waste_size
                invariant
                    moved <= waste_size == before.waste.len(),
                    before.stock.len() == 0,
                    self.card_piles == old(self).card_piles,
                    self.ace_piles == old(self).ace_piles,
                    self.discard@ == before.waste.take(before.waste.len() - moved),
                    self.hand@ == before.waste.skip(before.waste.len() - moved).reverse(),
                decreases waste_size - moved,
            {
                let card = self.discard.pop().unwrap();
                self.hand.push(card);
                moved += 1;
            }
        }
        proof {
            let after = before.draw();
            assert(self@.tableau =~= after.tableau);
            assert(self@.foundation =~= after.foundation);
            assert(self@.stock =~= after.stock);
            assert(self@.waste =~= after.waste);
        }
    }

    /// Tries to move the top card of the waste onto tableau pile `pile`.
    /// The move is refused, and the board left as it is, if the waste is
    /// empty, if the pile is empty, or if the card is not one rank below the
    /// pile's top card and of the other colour. Else the card leaves the
    /// waste and lies face up on the pile.
    pub fn place_card(&mut self, pile: PileIndex) -> (outcome: Result<(), MoveError>)
        ensures
            final(self)@ == old(self)@.place(pile.position()),
            outcome == (match old(self)@.refusal(pile.position()) {
                Some(error) => Err::<(), MoveError>(error),
                None => Ok::<(), MoveError>(()),
            }),
            final(self)@.identities() == old(self)@.identities(),
    {
        let target = pile.get();
        proof {
            lemma_place_conserves(old(self)@, pile.position());
        }
        if self.discard.len() == 0 {
            return Err(MoveError::EmptyWaste);
        }
        if self.card_piles[target].len() == 0 {
            return Err(MoveError::InvalidDestination);
        }
        let top_card_pile = self.card_piles[target][self.card_piles[target].len() - 1];
        let top_discard = self.discard[self.discard.len() - 1];
        if top_discard.number < 255 && top_discard.number + 1 == top_card_pile.number
            && top_discard.colour() != top_card_pile.colour() {
            let mut card = self.discard.pop().unwrap();
            card.face = Face::FaceUp;
            self.card_piles[target].push(card);
            proof {
                let after = old(self)@.place(pile.position());
                assert(self@.tableau =~= after.tableau);
                assert(self@.foundation =~= after.foundation);
            }
            Ok(())
        } else {
            Err(MoveError::IllegalMove)
        }
    }
}

} // verus!
