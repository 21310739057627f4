use solitaire::card::{Card, Colour, Face, Suit};

#[test]
fn new_card_is_unset() {
    let card = Card::new(7, Suit::Heart);
    assert_eq!(card.number, 7);
    assert_eq!(card.suit, Suit::Heart);
    assert_eq!(card.face, Face::Unset);
}

#[test]
fn colour_follows_suit() {
    assert_eq!(Card::new(1, Suit::Diamond).colour(), Colour::Red);
    assert_eq!(Card::new(1, Suit::Heart).colour(), Colour::Red);
    assert_eq!(Card::new(1, Suit::Club).colour(), Colour::Black);
    assert_eq!(Card::new(1, Suit::Spade).colour(), Colour::Black);
}

#[test]
fn face_value_of_court_cards() {
    assert_eq!(Card::new(1, Suit::Club).get_face_value(), "A");
    assert_eq!(Card::new(11, Suit::Club).get_face_value(), "J");
    assert_eq!(Card::new(12, Suit::Club).get_face_value(), "Q");
    assert_eq!(Card::new(13, Suit::Club).get_face_value(), "K");
}

#[test]
fn face_value_of_number_cards() {
    let expected = ["2", "3", "4", "5", "6", "7", "8", "9", "10"];
    for (k, text) in expected.iter().enumerate() {
        let card = Card::new(k as u8 + 2, Suit::Spade);
        assert_eq!(card.get_face_value(), *text);
    }
}

#[test]
fn face_value_outside_the_pack_is_the_number() {
    assert_eq!(Card::new(0, Suit::Spade).get_face_value(), "0");
    assert_eq!(Card::new(14, Suit::Spade).get_face_value(), "14");
    assert_eq!(Card::new(100, Suit::Spade).get_face_value(), "100");
    assert_eq!(Card::new(109, Suit::Spade).get_face_value(), "109");
    assert_eq!(Card::new(255, Suit::Spade).get_face_value(), "255");
}

#[test]
fn face_value_agrees_with_decimal_writing() {
    for n in 0..=255u8 {
        if n == 1 || n == 11 || n == 12 || n == 13 {
            continue;
        }
        assert_eq!(Card::new(n, Suit::Diamond).get_face_value(), n.to_string());
    }
}

#[test]
fn repr_of_face_down_card_is_a_placeholder() {
    let mut card = Card::new(12, Suit::Heart);
    card.face = Face::FaceDown;
    assert_eq!(card.repr_fixed(), " XX");
    let mut ten = Card::new(10, Suit::Club);
    ten.face = Face::FaceDown;
    assert_eq!(ten.repr_fixed(), " XX");
}

#[test]
fn repr_of_black_cards() {
    let mut queen = Card::new(12, Suit::Spade);
    queen.face = Face::FaceUp;
    assert_eq!(queen.repr_fixed(), " Q\u{2660}");
    let mut ten = Card::new(10, Suit::Club);
    ten.face = Face::FaceUp;
    assert_eq!(ten.repr_fixed(), "10\u{2663}");
    let mut five = Card::new(5, Suit::Club);
    five.face = Face::FaceUp;
    assert_eq!(five.repr_fixed(), " 5\u{2663}");
}

#[test]
fn repr_of_red_cards_is_in_red_ink() {
    let mut queen = Card::new(12, Suit::Heart);
    queen.face = Face::FaceUp;
    assert_eq!(queen.repr_fixed(), " \x1b[31mQ\u{2665}\x1b[0m");
    let mut ten = Card::new(10, Suit::Diamond);
    ten.face = Face::FaceUp;
    assert_eq!(ten.repr_fixed(), "\x1b[31m10\u{2666}\x1b[0m");
    let mut ace = Card::new(1, Suit::Diamond);
    ace.face = Face::FaceUp;
    assert_eq!(ace.repr_fixed(), " \x1b[31mA\u{2666}\x1b[0m");
}

#[test]
fn repr_of_unset_card_shows_the_card() {
    let card = Card::new(13, Suit::Club);
    assert_eq!(card.repr_fixed(), " K\u{2663}");
}
