use solitaire::board::GameBoard;
use solitaire::card::{Card, Face, Suit};
use solitaire::turn::{handle_turn, run_command};

fn face_up(number: u8, suit: Suit) -> Card {
    Card { number, suit, face: Face::FaceUp }
}

fn small_board() -> GameBoard {
    GameBoard {
        card_piles: [
            vec![face_up(6, Suit::Heart)],
            vec![face_up(6, Suit::Spade)],
            vec![],
            vec![face_up(9, Suit::Heart)],
            vec![],
            vec![],
            vec![face_up(6, Suit::Diamond)],
        ],
        ace_piles: [vec![], vec![], vec![], vec![]],
        hand: vec![
            face_up(2, Suit::Club),
            face_up(3, Suit::Club),
            face_up(4, Suit::Club),
            face_up(7, Suit::Club),
        ],
        discard: vec![face_up(5, Suit::Club)],
    }
}

#[test]
fn quit_ends_the_game() {
    let mut board = small_board();
    assert_eq!(handle_turn(&mut board, String::from("quit")), 1);
    assert_eq!(board, small_board());
}

#[test]
fn quit_with_white_space_around_it_ends_the_game() {
    let mut board = small_board();
    assert_eq!(handle_turn(&mut board, String::from("quit\n")), 1);
    assert_eq!(handle_turn(&mut board, String::from("  quit \r\n")), 1);
    assert_eq!(handle_turn(&mut board, String::from("\tquit")), 1);
    assert_eq!(board, small_board());
}

#[test]
fn words_near_quit_do_nothing() {
    let mut board = small_board();
    assert_eq!(handle_turn(&mut board, String::from("Quit\n")), 0);
    assert_eq!(handle_turn(&mut board, String::from("quit now\n")), 0);
    assert_eq!(handle_turn(&mut board, String::from("qui\n")), 0);
    assert_eq!(handle_turn(&mut board, String::from("quits\n")), 0);
    assert_eq!(handle_turn(&mut board, String::from("q u i t\n")), 0);
    assert_eq!(board, small_board());
}

#[test]
fn blank_line_draws() {
    let mut board = small_board();
    assert_eq!(handle_turn(&mut board, String::from("\n")), 0);
    assert_eq!(board.hand, vec![face_up(2, Suit::Club)]);
    assert_eq!(
        board.discard,
        vec![
            face_up(5, Suit::Club),
            face_up(7, Suit::Club),
            face_up(4, Suit::Club),
            face_up(3, Suit::Club),
        ]
    );
    assert_eq!(board.card_piles, small_board().card_piles);
}

#[test]
fn empty_and_blank_lines_draw_alike() {
    let mut first = small_board();
    let mut second = small_board();
    let mut third = small_board();
    assert_eq!(handle_turn(&mut first, String::new()), 0);
    assert_eq!(handle_turn(&mut second, String::from("   \t \r\n")), 0);
    third.draw_cards();
    assert_eq!(first, third);
    assert_eq!(second, third);
}

#[test]
fn letter_moves_the_top_of_the_waste() {
    let mut board = small_board();
    assert_eq!(handle_turn(&mut board, String::from("a\n")), 0);
    assert_eq!(board.card_piles[0], vec![face_up(6, Suit::Heart), face_up(5, Suit::Club)]);
    assert!(board.discard.is_empty());
    assert_eq!(board.hand, small_board().hand);
}

#[test]
fn last_letter_names_the_last_pile() {
    let mut board = small_board();
    assert_eq!(handle_turn(&mut board, String::from(" g ")), 0);
    assert_eq!(board.card_piles[6], vec![face_up(6, Suit::Diamond), face_up(5, Suit::Club)]);
    assert!(board.discard.is_empty());
}

#[test]
fn refused_move_leaves_the_board() {
    let mut board = small_board();
    assert_eq!(handle_turn(&mut board, String::from("b\n")), 0);
    assert_eq!(board, small_board());
    assert_eq!(handle_turn(&mut board, String::from("c\n")), 0);
    assert_eq!(board, small_board());
    assert_eq!(handle_turn(&mut board, String::from("d\n")), 0);
    assert_eq!(board, small_board());
}

#[test]
fn other_input_does_nothing() {
    let mut board = small_board();
    for line in ["h\n", "A\n", "1\n", "ab\n", "aa", "?", "\u{e9}\n", "draw\n", "a b\n", "-"] {
        assert_eq!(handle_turn(&mut board, String::from(line)), 0);
        assert_eq!(board, small_board());
    }
}

#[test]
fn run_command_takes_the_bare_command() {
    let mut board = small_board();
    assert_eq!(run_command(&mut board, "quit"), 1);
    assert_eq!(board, small_board());
    assert_eq!(run_command(&mut board, "a"), 0);
    assert_eq!(board.card_piles[0], vec![face_up(6, Suit::Heart), face_up(5, Suit::Club)]);
    assert_eq!(run_command(&mut board, ""), 0);
    assert_eq!(board.hand, vec![face_up(2, Suit::Club)]);
}

#[test]
fn run_command_does_not_trim() {
    let mut board = small_board();
    assert_eq!(run_command(&mut board, "quit\n"), 0);
    assert_eq!(run_command(&mut board, " a"), 0);
    assert_eq!(run_command(&mut board, "\n"), 0);
    assert_eq!(run_command(&mut board, " "), 0);
    assert_eq!(board, small_board());
}

#[test]
fn a_game_of_turns_keeps_every_card() {
    let mut board = GameBoard::deal();
    let lines = ["\n", "a\n", "b\n", "\n", "c\n", "d\n", "e\n", "\n", "f\n", "g\n", "x\n"];
    for _ in 0..30 {
        for line in lines {
            assert_eq!(handle_turn(&mut board, String::from(line)), 0);
        }
    }
    let mut count = 0;
    for cards in board.card_piles.iter().chain(board.ace_piles.iter()) {
        count += cards.len();
    }
    count += board.hand.len() + board.discard.len();
    assert_eq!(count, 52);
    assert_eq!(handle_turn(&mut board, String::from("quit\n")), 1);
}
