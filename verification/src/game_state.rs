//! Game-level state: token colors, game phases, and the mutable wrapper
//! around a packed board that tracks whose turn it is and how far the
//! opening has progressed.

use vstd::prelude::*;

verus! {

/// Contents of a single cell: empty, or a token of one of the two colors.
///
/// On the packed board a cell is 2 bits: `0b00` empty, `0b10` black,
/// `0b11` white.  The code `0b01` is never produced.
#[derive(Clone, Copy, Debug, PartialEq, Eq, Hash, Structural)]
pub enum Token {
    Empty,
    Black,
    White,
}

/// The two phases of a game: placing tokens (first 18 half-moves), then
/// sliding them.
#[derive(Clone, Copy, Debug, PartialEq, Eq, Structural)]
pub enum Phase {
    Setting,
    Move,
}

/// The token matching a 2-bit cell code: `0b11` white, `0b10` black,
/// anything else empty.
pub open spec fn token_of_code(code: u8) -> Token {
    if code == 0b11 {
        Token::White
    } else if code == 0b10 {
        Token::Black
    } else {
        Token::Empty
    }
}

/// The 2-bit cell code of a token.
pub open spec fn code_of_token(token: Token) -> u8 {
    match token {
        Token::White => 0b11,
        Token::Black => 0b10,
        Token::Empty => 0b00,
    }
}

impl Token {
    /// Decodes a 2-bit cell code into a token.
    pub fn parse_to_token(encoded_token: u8) -> (r: Token)
        ensures
            r == token_of_code(encoded_token),
    {
        match encoded_token {
            0b11 => Token::White,
            0b10 => Token::Black,
            _ => Token::Empty,
        }
    }

    /// Encodes a token as its 2-bit cell code.
    pub fn parse_to_u8(token: Token) -> (r: u8)
        ensures
            r == code_of_token(token),
    {
        match token {
            Token::White => 0b11,
            Token::Black => 0b10,
            Token::Empty => 0b00,
        }
    }

    /// The opposing color; empty stays empty.
    pub fn negate(&mut self) -> (r: Token)
        ensures
            *final(self) == *old(self),
            r == (match *old(self) {
                Token::Black => Token::White,
                Token::White => Token::Black,
                Token::Empty => Token::Empty,
            }),
    {
        match self {
            Token::Black => Token::White,
            Token::White => Token::Black,
            Token::Empty => Token::Empty,
        }
    }
}

/// A running game: the packed board, the side to move, the number of
/// tokens still to be placed in the opening, and the number of half-moves
/// played so far.
#[derive(Clone, Copy)]
pub struct GameState {
    board: u64,
    player_turn: Token,
    token_set_at_beginning: u8,
    step_counter: u8,
}

impl Default for GameState {
    /// A fresh game: empty board, white to move, 18 placements ahead,
    /// no half-moves played.
    fn default() -> (r: GameState)
        ensures
            r.spec_board() == 0,
            r.spec_player_turn() == Token::White,
            r.spec_token_set_at_beginning() == 18,
            r.spec_step_counter() == 0,
    {
        GameState { board: 0, player_turn: Token::White, token_set_at_beginning: 18, step_counter: 0 }
    }
}

impl GameState {
    pub closed spec fn spec_board(self) -> u64 {
        self.board
    }

    pub closed spec fn spec_player_turn(self) -> Token {
        self.player_turn
    }

    pub closed spec fn spec_token_set_at_beginning(self) -> u8 {
        self.token_set_at_beginning
    }

    pub closed spec fn spec_step_counter(self) -> u8 {
        self.step_counter
    }

    pub fn get_board(&self) -> (r: u64)
        ensures
            r == self.spec_board(),
    {
        self.board
    }

    pub fn set_board(&mut self, new_board: u64)
        ensures
            final(self).spec_board() == new_board,
            final(self).spec_player_turn() == old(self).spec_player_turn(),
            final(self).spec_token_set_at_beginning() == old(self).spec_token_set_at_beginning(),
            final(self).spec_step_counter() == old(self).spec_step_counter(),
    {
        self.board = new_board;
    }

    pub fn get_player_turn(&self) -> (r: Token)
        ensures
            r == self.spec_player_turn(),
    {
        self.player_turn
    }

    /// Hands the turn to the other player; an empty turn marker becomes
    /// white, as at the start of a game.
    pub fn change_player(&mut self)
        ensures
            final(self).spec_player_turn() == (if old(self).spec_player_turn() == Token::White {
                Token::Black
            } else {
                Token::White
            }),
            final(self).spec_board() == old(self).spec_board(),
            final(self).spec_token_set_at_beginning() == old(self).spec_token_set_at_beginning(),
            final(self).spec_step_counter() == old(self).spec_step_counter(),
    {
        if self.player_turn == Token::White {
            self.player_turn = Token::Black;
        } else {
            self.player_turn = Token::White;
        }
    }

    pub fn get_token_set_at_beginning(&self) -> (r: u8)
        ensures
            r == self.spec_token_set_at_beginning(),
    {
        self.token_set_at_beginning
    }

    pub fn set_token_set_at_beginning(&mut self, new_value: u8)
        ensures
            final(self).spec_token_set_at_beginning() == new_value,
            final(self).spec_board() == old(self).spec_board(),
            final(self).spec_player_turn() == old(self).spec_player_turn(),
            final(self).spec_step_counter() == old(self).spec_step_counter(),
    {
        self.token_set_at_beginning = new_value;
    }

    /// One more opening placement has happened; stops at zero.
    pub fn decrement_token_set_at_beginning(&mut self)
        ensures
            final(self).spec_token_set_at_beginning() == (if old(self).spec_token_set_at_beginning() > 0 {
                (old(self).spec_token_set_at_beginning() - 1) as u8
            } else {
                0u8
            }),
            final(self).spec_board() == old(self).spec_board(),
            final(self).spec_player_turn() == old(self).spec_player_turn(),
            final(self).spec_step_counter() == old(self).spec_step_counter(),
    {
        if self.token_set_at_beginning > 0 {
            self.token_set_at_beginning = self.token_set_at_beginning - 1;
        }
    }

    pub fn get_step_counter(&self) -> (r: u8)
        ensures
            r == self.spec_step_counter(),
    {
        self.step_counter
    }

    pub fn increase_step_counter(&mut self)
        requires
            old(self).spec_step_counter() < 255,
        ensures
            final(self).spec_step_counter() == old(self).spec_step_counter() + 1,
            final(self).spec_board() == old(self).spec_board(),
            final(self).spec_player_turn() == old(self).spec_player_turn(),
            final(self).spec_token_set_at_beginning() == old(self).spec_token_set_at_beginning(),
    {
        self.step_counter = self.step_counter + 1;
    }

    /// The opening lasts for the first 18 half-moves; afterwards tokens
    /// slide.
    pub fn get_phase(&self) -> (r: Phase)
        ensures
            r == (if self.spec_step_counter() < 18 {
                Phase::Setting
            } else {
                Phase::Move
            }),
    {
        if self.step_counter < 18 {
            Phase::Setting
        } else {
            Phase::Move
        }
    }
}

} // verus!
