use solitaire::card::{Card, Face, Suit};
use solitaire::deck::Deck;

fn drain(deck: &mut Deck) -> Vec<Card> {
    let mut drawn = Vec::new();
    while !deck.is_empty() {
        drawn.push(deck.draw_card());
    }
    drawn
}

fn suit_number(suit: Suit) -> usize {
    match suit {
        Suit::Diamond => 0,
        Suit::Club => 1,
        Suit::Heart => 2,
        Suit::Spade => 3,
    }
}

#[test]
fn fresh_deck_has_fifty_two_cards() {
    let deck = Deck::new();
    assert_eq!(deck.len(), 52);
    assert!(!deck.is_empty());
}

#[test]
fn fresh_deck_draws_from_king_of_spades_down() {
    let mut deck = Deck::new();
    let first = deck.draw_card();
    assert_eq!(first, Card { number: 13, suit: Suit::Spade, face: Face::Unset });
    let second = deck.draw_card();
    assert_eq!(second, Card { number: 13, suit: Suit::Heart, face: Face::Unset });
    let third = deck.draw_card();
    assert_eq!(third, Card { number: 13, suit: Suit::Club, face: Face::Unset });
    let fourth = deck.draw_card();
    assert_eq!(fourth, Card { number: 13, suit: Suit::Diamond, face: Face::Unset });
    let fifth = deck.draw_card();
    assert_eq!(fifth, Card { number: 12, suit: Suit::Spade, face: Face::Unset });
    assert_eq!(deck.len(), 47);
}

#[test]
fn fresh_deck_is_in_rank_major_order() {
    let mut deck = Deck::new();
    let mut drawn = drain(&mut deck);
    drawn.reverse();
    assert_eq!(drawn.len(), 52);
    let suits = [Suit::Diamond, Suit::Club, Suit::Heart, Suit::Spade];
    for (k, card) in drawn.iter().enumerate() {
        assert_eq!(card.number as usize, k / 4 + 1);
        assert_eq!(card.suit, suits[k % 4]);
        assert_eq!(card.face, Face::Unset);
    }
    assert_eq!(drawn[0], Card { number: 1, suit: Suit::Diamond, face: Face::Unset });
    assert_eq!(drawn[51], Card { number: 13, suit: Suit::Spade, face: Face::Unset });
}

#[test]
fn drawing_empties_the_deck() {
    let mut deck = Deck::new();
    let drawn = drain(&mut deck);
    assert_eq!(drawn.len(), 52);
    assert!(deck.is_empty());
    assert_eq!(deck.len(), 0);
}

#[test]
fn shuffle_keeps_every_card_once() {
    let mut deck = Deck::new();
    deck.shuffle();
    assert_eq!(deck.len(), 52);
    let drawn = drain(&mut deck);
    let mut seen = [false; 52];
    for card in drawn.iter() {
        assert!(1 <= card.number && card.number <= 13);
        assert_eq!(card.face, Face::Unset);
        let place = (card.number as usize - 1) * 4 + suit_number(card.suit);
        assert!(!seen[place]);
        seen[place] = true;
    }
    assert!(seen.iter().all(|&found| found));
}

#[test]
fn shuffle_changes_the_order() {
    let mut fresh = Deck::new();
    let unshuffled = drain(&mut fresh);
    let mut orders: Vec<Vec<Card>> = Vec::new();
    for _ in 0..20 {
        let mut deck = Deck::new();
        deck.shuffle();
        orders.push(drain(&mut deck));
    }
    assert!(orders.iter().all(|order| *order != unshuffled));
    let mut distinct = 0;
    for a in 0..orders.len() {
        if orders[..a].iter().all(|earlier| *earlier != orders[a]) {
            distinct += 1;
        }
    }
    assert!(distinct >= 19);
}

#[test]
fn shuffling_twice_changes_the_order_again() {
    let mut once = Deck::new();
    once.shuffle();
    let mut twice = Deck::new();
    twice.shuffle();
    twice.shuffle();
    let a = drain(&mut once);
    let b = drain(&mut twice);
    assert_eq!(a.len(), 52);
    assert_eq!(b.len(), 52);
    assert_ne!(a, b);
}
