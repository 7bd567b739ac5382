//! shakmaty's positions and moves, as the rules of chess use them.
//!
//! The types here hold shakmaty's values in private fields, and only the
//! trusted calls into shakmaty below make them. A [`Board`] is made only
//! from the standard start, by `starting_board`, and from a board and a move
//! resolved on it, by `play_resolved`: its position is always the one that
//! its moves reach, and what shakmaty answers about it is named over those
//! moves.

use vstd::prelude::*;
use vstd::string::*;
use shakmaty::san::San;
use shakmaty::{Chess, Move, Position};

use crate::chess::{
    checkmated, play_refusal, resolution_message, san_parses, san_resolution, stalemated,
    SanResolution,
};

verus! {

broadcast use vstd::std_specs::vec::group_vec_axioms;

#[verifier::external_type_specification]
#[verifier::external_body]
pub struct ExChess(Chess);

#[verifier::external_type_specification]
#[verifier::external_body]
pub struct ExSan(San);

#[verifier::external_type_specification]
#[verifier::external_body]
pub struct ExMove(Move);

/// A chess position with the moves that led to it from the standard start.
///
/// Boards are only made by `starting_board` and `play_resolved`, which set
/// the position together with the moves that reach it; what shakmaty answers
/// about a board is therefore a function of its moves.
pub struct Board {
    position: Chess,
    moves: Vec<String>,
}

impl View for Board {
    type V = Seq<Seq<char>>;

    closed spec fn view(&self) -> Seq<Seq<char>> {
        self.moves.deep_view()
    }
}

impl Board {
    /// The moves played so far, oldest first.
    pub fn moves(&self) -> (m: &Vec<String>)
        ensures
            m.deep_view() == self@,
    {
        &self.moves
    }
}

/// A move in Standard Algebraic Notation, parsed; only `parse_san` makes one.
pub struct ParsedSan {
    san: San,
    text: String,
}

impl View for ParsedSan {
    type V = Seq<char>;

    closed spec fn view(&self) -> Seq<char> {
        self.text@
    }
}

/// A legal move that the text `text` denotes on the board reached by
/// `history`; only `resolve_san` makes one.
pub struct ResolvedMove {
    mv: Move,
    history: Vec<String>,
    text: String,
}

impl View for ResolvedMove {
    type V = (Seq<Seq<char>>, Seq<char>);

    closed spec fn view(&self) -> (Seq<Seq<char>>, Seq<char>) {
        (self.history.deep_view(), self.text@)
    }
}

/// shakmaty's `Chess::default`: the standard starting position, held by a
/// board with no moves.
#[verifier::external_body]
pub(crate) fn starting_board() -> (b: Board)
    ensures
        b@ == Seq::<Seq<char>>::empty(),
{
    Board { position: Chess::default(), moves: Vec::new() }
}

/// shakmaty's `San::from_ascii` on the bytes of `text`, kept with `text`.
/// Whether it accepts them is named by `san_parses`; its error prints as
/// "invalid san".
#[verifier::external_body]
pub(crate) fn parse_san(text: &String) -> (r: Result<ParsedSan, String>)
    ensures
        r is Ok <==> san_parses(text@),
        r is Ok ==> r->Ok_0@ == text@,
        r matches Err(e) ==> e@ == "invalid san"@,
{
    match San::from_ascii(text.as_bytes()) {
        Ok(san) => Ok(ParsedSan { san, text: text.clone() }),
        Err(e) => Err(e.to_string()),
    }
}

/// shakmaty's `San::to_move` for `san` in the position of `board`, kept with
/// the board's moves and the text. It finds a move exactly when the
/// resolution is unique; its `SanError` prints as "illegal san" or
/// "ambiguous san".
#[verifier::external_body]
pub(crate) fn resolve_san(san: &ParsedSan, board: &Board) -> (r: Result<ResolvedMove, String>)
    ensures
        r is Ok <==> san_resolution(board@, san@) == SanResolution::Unique,
        r is Ok ==> r->Ok_0@ == (board@, san@),
        r matches Err(e) ==> e@ == resolution_message(san_resolution(board@, san@)),
{
    match san.san.to_move(&board.position) {
        Ok(m) => Ok(ResolvedMove { mv: m, history: board.moves.clone(), text: san.text.clone() }),
        Err(e) => Err(e.to_string()),
    }
}

/// shakmaty's `Position::play` of a resolved move on the board's position.
/// The outcome, and the text of a `PlayError`, are named by `play_refusal`.
/// The new position is held by a board whose moves are `after`: the board's
/// moves and then the move's text.
#[verifier::external_body]
pub(crate) fn play_resolved(board: Board, mv: ResolvedMove, after: Vec<String>) -> (r: Result<Board, String>)
    requires
        board@ == mv@.0,
        after.deep_view() == mv@.0.push(mv@.1),
    ensures
        r is Ok <==> play_refusal(mv@.0, mv@.1) is None,
        r matches Err(e) ==> play_refusal(mv@.0, mv@.1) == Some(e@),
        r is Ok ==> r->Ok_0@ == after.deep_view(),
{
    match board.position.play(&mv.mv) {
        Ok(p) => Ok(Board { position: p, moves: after }),
        Err(e) => Err(e.to_string()),
    }
}

/// shakmaty's `Position::is_checkmate` on the board's position. A
/// checkmated position has no legal moves, and `San::to_move` only picks
/// among legal moves (`san_candidates` and `castling_moves` generate subsets
/// of them), so no text resolves to a move there.
#[verifier::external_body]
pub(crate) fn position_is_checkmate(board: &Board) -> (r: bool)
    ensures
        r == checkmated(board@),
        r ==> forall|text: Seq<char>| #[trigger] san_resolution(board@, text) != SanResolution::Unique,
{
    board.position.is_checkmate()
}

/// shakmaty's `Position::is_stalemate` on the board's position. A
/// stalemated position has no legal moves, so, as for checkmate, no text
/// resolves to a move there.
#[verifier::external_body]
pub(crate) fn position_is_stalemate(board: &Board) -> (r: bool)
    ensures
        r == stalemated(board@),
        r ==> forall|text: Seq<char>| #[trigger] san_resolution(board@, text) != SanResolution::Unique,
{
    board.position.is_stalemate()
}

} // verus!
