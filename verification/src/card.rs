//! A playing card: its rank and suit, which never change, and the way it
//! faces, which does.

use vstd::prelude::*;

verus! {

/// The four suits, in the order in which a fresh shoe lists them.
#[derive(Clone, Copy, Debug, PartialEq, Eq, Structural)]
pub enum Suit {
    Diamond,
    Club,
    Heart,
    Spade,
}

/// The colour of a suit.
#[derive(Clone, Copy, Debug, PartialEq, Eq, Structural)]
pub enum Colour {
    Red,
    Black,
}

/// How a card lies on the table. A card that was never placed is `Unset`.
#[derive(Clone, Copy, Debug, PartialEq, Eq, Structural)]
pub enum Face {
    FaceUp,
    FaceDown,
    Unset,
}

impl Suit {
    /// Diamonds and hearts are red, clubs and spades black.
    pub open spec fn spec_colour(self) -> Colour {
        match self {
            Suit::Diamond | Suit::Heart => Colour::Red,
            Suit::Club | Suit::Spade => Colour::Black,
        }
    }

    /// The sign that a suit is printed with: U+2666, U+2663, U+2665, U+2660.
    pub open spec fn glyph(self) -> char {
        match self {
            Suit::Diamond => '\u{2666}',
            Suit::Club => '\u{2663}',
            Suit::Heart => '\u{2665}',
            Suit::Spade => '\u{2660}',
        }
    }
}

/// The character of the digit `d`, which is below ten.
pub open spec fn digit_char(d: int) -> char {
    ('0' as int + d) as char
}

/// `n` written in decimal digits, without leading zeros.
pub open spec fn decimal(n: nat) -> Seq<char>
    decreases n,
{
    if n < 10 {
        seq![digit_char(n as int)]
    } else {
        decimal(n / 10).push(digit_char((n % 10) as int))
    }
}

/// How a rank is written: `A`, `J`, `Q` and `K` for ace, jack, queen and
/// king, the number itself for the others.
pub open spec fn face_value(number: u8) -> Seq<char> {
    if number == 1 {
        seq!['A']
    } else if number == 11 {
        seq!['J']
    } else if number == 12 {
        seq!['Q']
    } else if number == 13 {
        seq!['K']
    } else {
        decimal(number as nat)
    }
}

/// The escape sequence that turns the terminal's ink red.
pub open spec fn red_on() -> Seq<char> {
    seq!['\x1b', '[', '3', '1', 'm']
}

/// The escape sequence that turns the terminal's ink back.
pub open spec fn colour_off() -> Seq<char> {
    seq!['\x1b', '[', '0', 'm']
}

/// The one-letter text of a digit below ten.
fn digit_str(d: u8) -> (text: &'static str)
    requires
        d < 10,
    ensures
        text@ == seq![digit_char(d as int)],
{
    proof {
        reveal_strlit("0");
        reveal_strlit("1");
        reveal_strlit("2");
        reveal_strlit("3");
        reveal_strlit("4");
        reveal_strlit("5");
        reveal_strlit("6");
        reveal_strlit("7");
        reveal_strlit("8");
        reveal_strlit("9");
    }
    let text = if d == 0 {
        "0"
    } else if d == 1 {
        "1"
    } else if d == 2 {
        "2"
    } else if d == 3 {
        "3"
    } else if d == 4 {
        "4"
    } else if d == 5 {
        "5"
    } else if d == 6 {
        "6"
    } else if d == 7 {
        "7"
    } else if d == 8 {
        "8"
    } else {
        "9"
    };
    assert(text@ =~= seq![digit_char(d as int)]);
    text
}

/// The text of a suit's sign.
fn glyph_str(suit: Suit) -> (text: &'static str)
    ensures
        text@ == seq![suit.glyph()],
{
    proof {
        reveal_strlit("\u{2666}");
        reveal_strlit("\u{2663}");
        reveal_strlit("\u{2665}");
        reveal_strlit("\u{2660}");
    }
    let text = match suit {
        Suit::Diamond => "\u{2666}",
        Suit::Club => "\u{2663}",
        Suit::Heart => "\u{2665}",
        Suit::Spade => "\u{2660}",
    };
    assert(text@ =~= seq![suit.glyph()]);
    text
}

/// One card. `number` runs from 1 (ace) to 13 (king) in a card of the game.
#[derive(Clone, Copy, Debug, PartialEq, Eq, Structural)]
pub struct Card {
    pub number: u8,
    pub suit: Suit,
    pub face: Face,
}

impl Card {
    /// The rank is one of the thirteen of a suit.
    pub open spec fn has_rank(self) -> bool {
        1 <= self.number <= 13
    }

    /// What identifies a card through the whole game: rank and suit.
    pub open spec fn identity(self) -> (u8, Suit) {
        (self.number, self.suit)
    }

    /// The same card lying as `face` says.
    pub open spec fn turned(self, face: Face) -> Card {
        Card { number: self.number, suit: self.suit, face }
    }

    pub open spec fn spec_colour(&self) -> Colour {
        self.suit.spec_colour()
    }

    /// The card as a terminal shows it, three columns wide. A card that lies
    /// face down shows ` XX`. Any other shows its rank and its suit's sign,
    /// with a blank in front unless the rank is ten, and in red ink if the
    /// suit is red.
    pub open spec fn repr(self) -> Seq<char> {
        if self.face == Face::FaceDown {
            seq![' ', 'X', 'X']
        } else {
            let pad = if self.number != 10 {
                seq![' ']
            } else {
                Seq::empty()
            };
            let body = face_value(self.number).push(self.suit.glyph());
            if self.spec_colour() == Colour::Red {
                pad + red_on() + body + colour_off()
            } else {
                pad + body
            }
        }
    }

    /// A card that has not been placed yet.
    pub fn new(number: u8, suit: Suit) -> (card: Card)
        ensures
            card == (Card { number, suit, face: Face::Unset }),
    {
        Card { number, suit, face: Face::Unset }
    }

    /// Red for diamonds and hearts, black for clubs and spades.
    #[verifier::when_used_as_spec(spec_colour)]
    pub fn colour(&self) -> (colour: Colour)
        ensures
            colour == self.spec_colour(),
    {
        if self.suit == Suit::Diamond || self.suit == Suit::Heart {
            return Colour::Red;
        }
        Colour::Black
    }

    /// The rank as it is written on the card.
    pub fn get_face_value(&self) -> (out: String)
        ensures
            out@ == face_value(self.number),
    {
        let n = self.number;
        if n == 1 {
            proof {
                reveal_strlit("A");
            }
            let out = String::from_str("A");
            assert(out@ =~= seq!['A']);
            out
        } else if n == 11 {
            proof {
                reveal_strlit("J");
            }
            let out = String::from_str("J");
            assert(out@ =~= seq!['J']);
            out
        } else if n == 12 {
            proof {
                reveal_strlit("Q");
            }
            let out = String::from_str("Q");
            assert(out@ =~= seq!['Q']);
            out
        } else if n == 13 {
            proof {
                reveal_strlit("K");
            }
            let out = String::from_str("K");
            assert(out@ =~= seq!['K']);
            out
        } else {
            let mut out = String::new();
            if n >= 100 {
                out.append(digit_str(n / 100));
            }
            if n >= 10 {
                out.append(digit_str((n / 10) % 10));
            }
            out.append(digit_str(n % 10));
            proof {
                reveal_with_fuel(decimal, 3);
                assert(out@ =~= decimal(n as nat));
            }
            out
        }
    }

    /// The card as a terminal shows it: see `repr`.
    pub fn repr_fixed(&self) -> (s: String)
        ensures
            s@ == self.repr(),
    {
        let mut s = String::new();
        if self.face == Face::FaceDown {
            proof {
                reveal_strlit(" XX");
            }
            s.append(" XX");
            assert(s@ =~= seq![' ', 'X', 'X']);
            return s;
        }
        let suit = glyph_str(self.suit);
        proof {
            reveal_strlit(" ");
            reveal_strlit("\x1b[31m");
            reveal_strlit("\x1b[0m");
        }
        if self.number != 10 {
            s.append(" ");
        }
        if self.colour() == Colour::Red {
            s.append("\x1b[31m");
            s.append(self.get_face_value().as_str());
            s.append(suit);
            s.append("\x1b[0m");
        } else {
            s.append(self.get_face_value().as_str());
            s.append(suit);
        }
        assert(s@ =~= self.repr());
        s
    }
}

} // verus!
