//! What holds of the rules whatever the cards are: no card is lost or made,
//! a deal has its shape, and a draw from an empty stock turns the waste over.

use vstd::prelude::*;
use vstd::multiset::Multiset;
use vstd::seq_lib::lemma_multiset_commutative;
use crate::card::{Card, Face, Suit};
use crate::deck::{fresh_card, fresh_deck};
use crate::rules::{
    Action, Table, all_turned, dealt_pile, full_pack, identities, lemma_pile_starts, pile_start,
};

verus! {

/// A sequence without cards holds no card.
pub proof fn lemma_identities_empty()
    ensures
        identities(Seq::<Card>::empty()) == Multiset::<(u8, Suit)>::empty(),
{
    let none = Seq::<Card>::empty().map_values(|c: Card| c.identity());
    assert(none.to_multiset().len() == 0) by {
        none.to_multiset_ensures();
    }
    assert(none.to_multiset() =~= Multiset::<(u8, Suit)>::empty());
}

/// Two sequences laid end to end hold the cards of both.
pub proof fn lemma_identities_concat(a: Seq<Card>, b: Seq<Card>)
    ensures
        identities(a + b) == identities(a).add(identities(b)),
{
    let f = |c: Card| c.identity();
    assert((a + b).map_values(f) =~= a.map_values(f) + b.map_values(f));
    lemma_multiset_commutative(a.map_values(f), b.map_values(f));
}

/// A sequence read backwards holds the same cards.
pub proof fn lemma_identities_reverse(s: Seq<Card>)
    ensures
        identities(s.reverse()) == identities(s),
{
    let f = |c: Card| c.identity();
    assert(s.reverse().map_values(f) =~= s.map_values(f).reverse());
    s.map_values(f).lemma_reverse_to_multiset();
}

/// Turning cards over does not change which cards they are.
pub proof fn lemma_identities_turned(s: Seq<Card>, face: Face)
    ensures
        identities(all_turned(s, face)) == identities(s),
{
    let f = |c: Card| c.identity();
    assert(all_turned(s, face).map_values(f) =~= s.map_values(f));
}

/// A sequence holds what its two parts hold, wherever it is cut.
pub proof fn lemma_identities_split(s: Seq<Card>, at: int)
    requires
        0 <= at <= s.len(),
    ensures
        identities(s) == identities(s.take(at)).add(identities(s.skip(at))),
{
    assert(s =~= s.take(at) + s.skip(at));
    lemma_identities_concat(s.take(at), s.skip(at));
}

/// Replacing one pile takes that pile's cards away and brings the new pile's
/// cards in.
pub proof fn lemma_identities_update(piles: Seq<Seq<Card>>, at: int, pile: Seq<Card>)
    requires
        0 <= at < piles.len(),
    ensures
        identities(piles.update(at, pile).flatten()).add(identities(piles[at])) == identities(
            piles.flatten(),
        ).add(identities(pile)),
{
    let low = piles.take(at);
    let high = piles.skip(at + 1);
    assert(piles =~= low + seq![piles[at]] + high);
    assert(piles.update(at, pile) =~= low + seq![pile] + high);
    vstd::seq_lib::lemma_flatten_concat(low, seq![piles[at]]);
    vstd::seq_lib::lemma_flatten_concat(low + seq![piles[at]], high);
    vstd::seq_lib::lemma_flatten_concat(low, seq![pile]);
    vstd::seq_lib::lemma_flatten_concat(low + seq![pile], high);
    seq![piles[at]].lemma_flatten_one_element();
    seq![pile].lemma_flatten_one_element();
    lemma_identities_concat(low.flatten(), piles[at]);
    lemma_identities_concat(low.flatten() + piles[at], high.flatten());
    lemma_identities_concat(low.flatten(), pile);
    lemma_identities_concat(low.flatten() + pile, high.flatten());
    assert(identities(piles.update(at, pile).flatten()).add(identities(piles[at])) =~= identities(
        piles.flatten(),
    ).add(identities(pile)));
}

/// Two sequences of the same cards, in whatever order, hold the same ranks
/// and suits.
pub proof fn lemma_identities_of_same_cards(a: Seq<Card>, b: Seq<Card>)
    requires
        a.to_multiset() == b.to_multiset(),
    ensures
        identities(a) == identities(b),
    decreases a.len(),
{
    let f = |c: Card| c.identity();
    a.to_multiset_ensures();
    b.to_multiset_ensures();
    if a.len() == 0 {
        assert(b.len() == 0);
        assert(a =~= b);
    } else {
        let card = a.last();
        let shorter = a.drop_last();
        assert(a =~= shorter.push(card));
        shorter.to_multiset_ensures();
        assert(a.contains(card)) by {
            assert(a[a.len() - 1] == card);
        }
        assert(a.to_multiset().count(card) > 0);
        assert(b.to_multiset().count(card) > 0);
        assert(b.contains(card));
        let at = choose|at: int| 0 <= at < b.len() && b[at] == card;
        let others = b.remove(at);
        assert(shorter.to_multiset() =~= others.to_multiset());
        lemma_identities_of_same_cards(shorter, others);
        assert(a.map_values(f) =~= shorter.map_values(f).push(f(card)));
        shorter.map_values(f).to_multiset_ensures();
        assert(others.map_values(f) =~= b.map_values(f).remove(at));
        b.map_values(f).to_multiset_ensures();
        assert(b.map_values(f).contains(f(card))) by {
            assert(b.map_values(f)[at] == f(card));
        }
        assert(identities(a) =~= identities(b));
    }
}

/// Piles without cards make a row without cards.
pub proof fn lemma_flatten_empty_piles(piles: Seq<Seq<Card>>)
    requires
        forall|k: int| 0 <= k < piles.len() ==> (#[trigger] piles[k]).len() == 0,
    ensures
        piles.flatten() == Seq::<Card>::empty(),
    decreases piles.len(),
{
    if piles.len() > 0 {
        lemma_flatten_empty_piles(piles.drop_first());
        assert(piles.flatten() =~= Seq::<Card>::empty());
    }
}

/// The first `k` piles of a deal hold the first `pile_start(k)` cards that
/// were drawn from the shoe.
proof fn lemma_dealt_piles(shoe: Seq<Card>, k: int)
    requires
        shoe.len() >= 28,
        0 <= k <= 7,
    ensures
        0 <= pile_start(k) <= 28,
        identities(Table::dealt(shoe).tableau.take(k).flatten()) == identities(
            shoe.reverse().take(pile_start(k)),
        ),
    decreases k,
{
    lemma_pile_starts();
    let tableau = Table::dealt(shoe).tableau;
    let drawn = shoe.reverse();
    if k == 0 {
        assert(tableau.take(0).flatten() =~= drawn.take(0));
    } else {
        lemma_dealt_piles(shoe, k - 1);
        let from = pile_start(k - 1);
        let to = pile_start(k);
        let pile = tableau[k - 1];
        let source = drawn.subrange(from, to);
        assert(tableau.take(k) =~= tableau.take(k - 1).push(pile));
        tableau.take(k - 1).lemma_flatten_push(pile);
        lemma_identities_concat(tableau.take(k - 1).flatten(), pile);
        assert(pile == dealt_pile(shoe, k - 1));
        assert(pile.map_values(|c: Card| c.identity()) =~= source.map_values(
            |c: Card| c.identity(),
        ));
        assert(drawn.take(to) =~= drawn.take(from) + source);
        lemma_identities_concat(drawn.take(from), source);
    }
}

/// A deal puts every card of the shoe on the table, and no other.
pub proof fn lemma_deal_conserves(shoe: Seq<Card>)
    requires
        shoe.len() >= 28,
    ensures
        Table::dealt(shoe).identities() == identities(shoe),
{
    let table = Table::dealt(shoe);
    let drawn = shoe.reverse();
    lemma_pile_starts();
    lemma_dealt_piles(shoe, 7);
    assert(table.tableau.take(7) =~= table.tableau);
    lemma_flatten_empty_piles(table.foundation);
    lemma_identities_empty();
    assert(table.stock.map_values(|c: Card| c.identity()) =~= drawn.skip(28).map_values(
        |c: Card| c.identity(),
    ));
    lemma_identities_split(drawn, 28);
    lemma_identities_reverse(shoe);
    assert(table.identities() =~= identities(shoe));
}

/// Deal shape: after a deal pile `j` holds `j + 1` cards, only the last of
/// them face up, and the stock holds what the tableau's 28 cards left of
/// the shoe: 24 cards of a full one.
pub proof fn lemma_deal_shape(shoe: Seq<Card>)
    requires
        shoe.len() >= 28,
    ensures
        Table::dealt(shoe).has_deal_shape(),
        Table::dealt(shoe).stock.len() == shoe.len() - 28,
        shoe.len() == 52 ==> Table::dealt(shoe).stock.len() == 24,
{
}

/// A deal from a shoe that holds the cards of a fresh one, in whatever
/// order, has the shape of a deal, leaves 24 cards in the stock and puts
/// every card of the pack on the table once.
pub proof fn lemma_shuffled_deal(shoe: Seq<Card>)
    requires
        shoe.to_multiset() == fresh_deck().to_multiset(),
    ensures
        shoe.len() == 52,
        Table::dealt(shoe).has_deal_shape(),
        Table::dealt(shoe).stock.len() == 24,
        Table::dealt(shoe).is_complete(),
{
    shoe.to_multiset_ensures();
    fresh_deck().to_multiset_ensures();
    lemma_deal_shape(shoe);
    lemma_deal_conserves(shoe);
    lemma_identities_of_same_cards(shoe, fresh_deck());
}

/// The full pack holds each rank from ace to king once in each suit, and
/// nothing else: 52 cards.
pub proof fn lemma_full_pack(rank: u8, suit: Suit)
    ensures
        full_pack().count((rank, suit)) == (if 1 <= rank <= 13 {
            1nat
        } else {
            0nat
        }),
        full_pack().len() == 52,
{
    let names = fresh_deck().map_values(|c: Card| c.identity());
    names.to_multiset_ensures();
    assert(names.no_duplicates()) by {
        assert forall|a: int, b: int|
            0 <= a < names.len() && 0 <= b < names.len() && a != b implies names[a]
            != names[b] by {
            assert(names[a] == fresh_card(a).identity());
            assert(names[b] == fresh_card(b).identity());
        }
    }
    names.lemma_multiset_has_no_duplicates();
    if 1 <= rank <= 13 {
        let place = (rank - 1) * 4 + (match suit {
            Suit::Diamond => 0int,
            Suit::Club => 1int,
            Suit::Heart => 2int,
            Suit::Spade => 3int,
        });
        assert(names[place] == fresh_card(place).identity());
        assert(names[place] == (rank, suit));
        assert(names.contains((rank, suit)));
    } else {
        if names.contains((rank, suit)) {
            let at = choose|at: int| 0 <= at < names.len() && names[at] == (rank, suit);
            assert(names[at] == fresh_card(at).identity());
        }
    }
}

/// A draw moves cards between stock and waste and neither loses nor makes
/// one.
pub proof fn lemma_draw_conserves(table: Table)
    ensures
        table.draw().identities() == table.identities(),
{
    let n = table.draw_count();
    if n >= 1 {
        let rest = table.stock.len() - n;
        let taken = table.stock.skip(rest);
        lemma_identities_split(table.stock, rest);
        lemma_identities_concat(table.waste, all_turned(taken.reverse(), Face::FaceUp));
        lemma_identities_turned(taken.reverse(), Face::FaceUp);
        lemma_identities_reverse(taken);
    } else {
        assert(table.stock =~= Seq::<Card>::empty());
        lemma_identities_empty();
        lemma_identities_reverse(table.waste);
    }
    assert(table.draw().identities() =~= table.identities());
}

/// An attempt to move a card, refused or not, neither loses nor makes one.
pub proof fn lemma_place_conserves(table: Table, pile: int)
    requires
        table.wf(),
        0 <= pile < 7,
    ensures
        table.place(pile).identities() == table.identities(),
{
    if table.refusal(pile) is None {
        let card = table.waste.last();
        let moved = card.turned(Face::FaceUp);
        let grown = table.tableau[pile].push(moved);
        lemma_identities_update(table.tableau, pile, grown);
        assert(grown =~= table.tableau[pile] + seq![moved]);
        lemma_identities_concat(table.tableau[pile], seq![moved]);
        assert(table.waste =~= table.waste.drop_last() + seq![card]);
        lemma_identities_concat(table.waste.drop_last(), seq![card]);
        assert(seq![moved] =~= all_turned(seq![card], Face::FaceUp));
        lemma_identities_turned(seq![card], Face::FaceUp);
        let after = table.place(pile);
        assert(after.tableau.flatten() == table.tableau.update(pile, grown).flatten());
        assert forall|x: (u8, Suit)|
            after.identities().count(x) == table.identities().count(x) by {
            let swapped = identities(after.tableau.flatten()).add(
                identities(table.tableau[pile]),
            );
            let kept = identities(table.tableau.flatten()).add(identities(grown));
            assert(swapped.count(x) == kept.count(x));
            assert(identities(grown).count(x) == identities(table.tableau[pile]).add(
                identities(seq![moved]),
            ).count(x));
            assert(identities(table.waste).count(x) == identities(table.waste.drop_last()).add(
                identities(seq![card]),
            ).count(x));
        }
        assert(after.identities() =~= table.identities());
    }
}

/// Conservation: from a table that holds every card of the pack once, no
/// sequence of draws and moves leads to one that does not.
pub proof fn lemma_play_conserves(table: Table, actions: Seq<Action>)
    requires
        table.wf(),
        forall|k: int| 0 <= k < actions.len() ==> (#[trigger] actions[k]).wf(),
    ensures
        table.play(actions).wf(),
        table.play(actions).identities() == table.identities(),
        table.is_complete() ==> table.play(actions).is_complete(),
    decreases actions.len(),
{
    if actions.len() > 0 {
        let earlier = actions.drop_last();
        lemma_play_conserves(table, earlier);
        let before = table.play(earlier);
        assert(actions.last() == actions[actions.len() - 1]);
        match actions.last() {
            Action::Draw => {
                lemma_draw_conserves(before);
            },
            Action::Place(pile) => {
                lemma_place_conserves(before, pile);
            },
        }
    }
}

/// Conservation through a whole game: after the deal of a shuffled shoe
/// and any draws and moves that follow it, every card of the pack is on the
/// table exactly once.
pub proof fn lemma_game_conserves(shoe: Seq<Card>, actions: Seq<Action>)
    requires
        shoe.to_multiset() == fresh_deck().to_multiset(),
        forall|k: int| 0 <= k < actions.len() ==> (#[trigger] actions[k]).wf(),
    ensures
        Table::dealt(shoe).play(actions).is_complete(),
{
    lemma_shuffled_deal(shoe);
    lemma_play_conserves(Table::dealt(shoe), actions);
}

/// A draw changes nothing when stock and waste are both empty, and only
/// then.
pub proof fn lemma_draw_on_empty(table: Table)
    ensures
        table.draw() == table <==> table.stock.len() == 0 && table.waste.len() == 0,
{
    if table.stock.len() == 0 && table.waste.len() == 0 {
        assert(table.draw().stock =~= table.stock);
        assert(table.draw().waste =~= table.waste);
    } else if table.stock.len() > 0 {
        assert(table.draw().stock.len() < table.stock.len());
    } else {
        assert(table.draw().waste.len() == 0);
    }
}

/// With an empty stock a draw turns the whole waste over into the stock,
/// and the draw after it takes up to three cards back from there.
pub proof fn lemma_draw_recycles(table: Table)
    requires
        table.stock.len() == 0,
    ensures
        table.draw().waste.len() == 0,
        table.draw().stock == table.waste.reverse(),
        table.draw().stock.len() == table.waste.len(),
        table.draw().draw().waste.len() == (if table.waste.len() < 3 {
            table.waste.len()
        } else {
            3
        }),
        table.draw().draw().stock.len() + table.draw().draw().waste.len() == table.waste.len(),
{
}

} // verus!
