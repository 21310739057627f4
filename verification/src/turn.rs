//! A player's turn: one line of text, and what it does to the board.

use vstd::prelude::*;
use crate::board::{GameBoard, PileIndex};
use crate::rules::Table;

verus! {

/// The word that ends the game.
pub open spec fn quit_word() -> Seq<char> {
    seq!['q', 'u', 'i', 't']
}

/// What a command does to the table. The empty command draws. A single
/// letter from `a` to `g` tries to move the top card of the waste to the
/// pile of that letter. Everything else, the word that ends the game too,
/// leaves the table as it is.
pub open spec fn after_command(table: Table, command: Seq<char>) -> Table {
    if command == quit_word() {
        table
    } else if command.len() == 0 {
        table.draw()
    } else if command.len() == 1 && 'a' <= command[0] <= 'g' {
        table.place(command[0] as int - 'a' as int)
    } else {
        table
    }
}

/// What is left of a line when the white space at both of its ends is taken
/// away, as `str::trim` does it.
pub uninterp spec fn trimmed(line: Seq<char>) -> Seq<char>;

/// `str::trim` of the standard library: the part of `line` between its
/// leading and its trailing white space, where white space is what Unicode
/// calls so. The contract only gives that part its name.
#[verifier::external_body]
fn trim_line(line: &str) -> (command: &str)
    ensures
        command@ == trimmed(line@),
{
    line.trim()
}

/// Whether `command` is the word that ends the game.
fn is_quit(command: &str) -> (quit: bool)
    ensures
        quit == (command@ == quit_word()),
{
    let quit = command.unicode_len() == 4 && command.get_char(0) == 'q' && command.get_char(1)
        == 'u' && command.get_char(2) == 'i' && command.get_char(3) == 't';
    assert(quit ==> command@ =~= quit_word());
    quit
}

/// Carries out a command that has no white space around it, and says
/// whether the game goes on: 1 after the word that ends it, else 0. A move
/// that the rules refuse leaves the board as it is, like a command that
/// means nothing.
pub fn run_command(game_board: &mut GameBoard, command: &str) -> (code: i32)
    ensures
        code == (if command@ == quit_word() { 1i32 } else { 0i32 }),
        final(game_board)@ == after_command(old(game_board)@, command@),
{
    if is_quit(command) {
        return 1;
    }
    let length = command.unicode_len();
    if length == 0 {
        game_board.draw_cards();
    } else if length == 1 {
        match PileIndex::from_letter(command.get_char(0)) {
            Some(pile) => {
                let _ = game_board.place_card(pile);
            },
            None => {},
        }
    }
    0
}

/// Takes a line as the player typed it, carries out the command that is
/// left when the white space around it is removed, and says whether the
/// game goes on: 1 after the word that ends it, else 0.
pub fn handle_turn(game_board: &mut GameBoard, input: String) -> (code: i32)
    ensures
        code == (if trimmed(input@) == quit_word() { 1i32 } else { 0i32 }),
        final(game_board)@ == after_command(old(game_board)@, trimmed(input@)),
{
    let command = trim_line(input.as_str());
    run_command(game_board, command)
}

} // verus!
