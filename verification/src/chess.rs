//! The rules of chess, as far as the server needs them: replaying a game's
//! recorded moves and judging a new one.
//!
//! The positions are shakmaty's. A [`Board`] pairs one with the list of moves
//! in Standard Algebraic Notation that led to it from the standard starting
//! position; that list is its view, and what shakmaty answers about a board is
//! named over it. Boards are made only in the `position` module, by the
//! trusted calls into shakmaty.

use vstd::prelude::*;
use vstd::string::*;

use crate::models::GameResponse;
use crate::position::{
    parse_san, play_resolved, position_is_checkmate, position_is_stalemate, resolve_san,
    starting_board,
};
pub use crate::position::Board;

verus! {

broadcast use vstd::std_specs::vec::group_vec_axioms;

/// How a move in Standard Algebraic Notation matches the legal moves of a
/// position.
#[derive(Debug, Clone, Copy, PartialEq, Eq, Structural)]
pub enum SanResolution {
    /// Exactly one legal move matches.
    Unique,
    /// No legal move matches.
    Illegal,
    /// Several legal moves match.
    Ambiguous,
}

/// Whether shakmaty's `San::from_ascii` accepts the bytes of `text`.
pub uninterp spec fn san_parses(text: Seq<char>) -> bool;

/// How shakmaty's `San::to_move` resolves `text` in the position reached by
/// playing `history` from the standard starting position.
pub uninterp spec fn san_resolution(history: Seq<Seq<char>>, text: Seq<char>) -> SanResolution;

/// What shakmaty's `Position::play` reports when the move that `text`
/// resolves to after `history` is played: `None` when it is played, else the
/// text of the refusal.
pub uninterp spec fn play_refusal(history: Seq<Seq<char>>, text: Seq<char>) -> Option<Seq<char>>;

/// Whether shakmaty's `Position::is_checkmate` holds after `history`.
pub uninterp spec fn checkmated(history: Seq<Seq<char>>) -> bool;

/// Whether shakmaty's `Position::is_stalemate` holds after `history`.
pub uninterp spec fn stalemated(history: Seq<Seq<char>>) -> bool;

/// The text of shakmaty's `SanError` for a resolution that found no unique move.
pub open spec fn resolution_message(r: SanResolution) -> Seq<char> {
    match r {
        SanResolution::Ambiguous => "ambiguous san"@,
        _ => "illegal san"@,
    }
}

/// The stage at which a move was refused.
#[derive(Debug, Clone, Copy, PartialEq, Eq, Structural)]
pub enum Stage {
    /// The text is not Standard Algebraic Notation.
    Notation,
    /// The notation matches no legal move, or more than one.
    Resolution,
    /// The position refused the move.
    Play,
}

/// Why a move could not be played: the stage and the message.
#[derive(Debug, Clone)]
pub struct Rejection {
    pub stage: Stage,
    pub message: String,
}

impl View for Rejection {
    type V = (Stage, Seq<char>);

    open spec fn view(&self) -> (Stage, Seq<char>) {
        (self.stage, self.message@)
    }
}

/// What playing `text` after `history` is refused for, if anything.
pub open spec fn refusal(history: Seq<Seq<char>>, text: Seq<char>) -> Option<(Stage, Seq<char>)> {
    if !san_parses(text) {
        Some((Stage::Notation, "invalid san"@))
    } else if san_resolution(history, text) != SanResolution::Unique {
        Some((Stage::Resolution, resolution_message(san_resolution(history, text))))
    } else {
        match play_refusal(history, text) {
            Some(m) => Some((Stage::Play, m)),
            None => None,
        }
    }
}

impl Board {
    /// The standard starting position, with no moves played.
    pub fn start() -> (b: Board)
        ensures
            b@ == Seq::<Seq<char>>::empty(),
    {
        starting_board()
    }

    /// Plays the move written `text` in Standard Algebraic Notation.
    pub fn play_san(self, text: &String) -> (r: Result<Board, Rejection>)
        ensures
            match refusal(self@, text@) {
                None => r matches Ok(b) && b@ == self@.push(text@),
                Some(why) => r matches Err(e) && e@ == why,
            },
            r is Ok <==> plays_in(self@, text@),
    {
        proof {
            refusal_follows_shakmaty(self@, text@);
        }
        let parsed = match parse_san(text) {
            Ok(parsed) => parsed,
            Err(e) => {
                return Err(Rejection { stage: Stage::Notation, message: e });
            },
        };
        let resolved = match resolve_san(&parsed, &self) {
            Ok(resolved) => resolved,
            Err(e) => {
                return Err(Rejection { stage: Stage::Resolution, message: e });
            },
        };
        let mut after = self.moves().clone();
        assert(after.deep_view() =~= self@);
        let ghost before = after.deep_view();
        after.push(text.clone());
        assert(after.deep_view() =~= before.push(text@));
        match play_resolved(self, resolved, after) {
            Ok(next) => Ok(next),
            Err(e) => Err(Rejection { stage: Stage::Play, message: e }),
        }
    }

    /// Whether the side to move is checkmated; then no move can be played.
    pub fn is_checkmate(&self) -> (r: bool)
        ensures
            r == checkmated(self@),
            r ==> forall|text: Seq<char>| #[trigger] san_resolution(self@, text) != SanResolution::Unique,
    {
        position_is_checkmate(self)
    }

    /// Whether the side to move is stalemated; then no move can be played.
    pub fn is_stalemate(&self) -> (r: bool)
        ensures
            r == stalemated(self@),
            r ==> forall|text: Seq<char>| #[trigger] san_resolution(self@, text) != SanResolution::Unique,
    {
        position_is_stalemate(self)
    }
}


/// What a legal move did to the game.
#[derive(Debug, Clone, Copy, PartialEq, Eq, Structural)]
pub enum MoveResult {
    Checkmate,
    Stalemate,
    Legal,
}

/// Why a move was not accepted.
#[derive(Debug, Clone)]
pub enum Error {
    /// The new move was refused by the position.
    InvalidMove(String),
    /// A recorded move is not Standard Algebraic Notation.
    InvalidGameHistoryNotation(String),
    /// A recorded move was refused by its position.
    InvalidGameHistoryMove(String),
    /// A move matches no legal move, or more than one; or the new move is
    /// not Standard Algebraic Notation.
    InvalidMoveNotation(String),
}

/// The kind of an [`Error`], without its message.
#[derive(Debug, Clone, Copy, PartialEq, Eq, Structural)]
pub enum ErrorKind {
    InvalidMove,
    InvalidGameHistoryNotation,
    InvalidGameHistoryMove,
    InvalidMoveNotation,
}

impl View for Error {
    type V = (ErrorKind, Seq<char>);

    open spec fn view(&self) -> (ErrorKind, Seq<char>) {
        match self {
            Error::InvalidMove(m) => (ErrorKind::InvalidMove, m@),
            Error::InvalidGameHistoryNotation(m) => (ErrorKind::InvalidGameHistoryNotation, m@),
            Error::InvalidGameHistoryMove(m) => (ErrorKind::InvalidGameHistoryMove, m@),
            Error::InvalidMoveNotation(m) => (ErrorKind::InvalidMoveNotation, m@),
        }
    }
}

impl Error {
    /// The message that the error carries; this is how it prints.
    pub fn message(&self) -> (m: String)
        ensures
            m@ == self@.1,
    {
        match self {
            Error::InvalidMove(e) => e.clone(),
            Error::InvalidGameHistoryNotation(e) => e.clone(),
            Error::InvalidGameHistoryMove(e) => e.clone(),
            Error::InvalidMoveNotation(e) => e.clone(),
        }
    }
}

/// The report for a recorded move that is not Standard Algebraic Notation:
/// the move, then the parser's message in quotes.
pub open spec fn notation_report(item: Seq<char>, message: Seq<char>) -> Seq<char> {
    "item: "@ + item + " error: \""@ + message + "\""@
}

/// The error for a recorded move `item` that was refused.
pub open spec fn history_error(item: Seq<char>, why: (Stage, Seq<char>)) -> (ErrorKind, Seq<char>) {
    match why.0 {
        Stage::Notation => (ErrorKind::InvalidGameHistoryNotation, notation_report(item, why.1)),
        Stage::Resolution => (ErrorKind::InvalidMoveNotation, why.1),
        Stage::Play => (ErrorKind::InvalidGameHistoryMove, why.1),
    }
}

/// The error for a new move that was refused.
pub open spec fn move_error(why: (Stage, Seq<char>)) -> (ErrorKind, Seq<char>) {
    match why.0 {
        Stage::Play => (ErrorKind::InvalidMove, why.1),
        _ => (ErrorKind::InvalidMoveNotation, why.1),
    }
}

/// The first refusal met when the recorded `moves` are replayed from the
/// start, reported as an error.
pub open spec fn history_failure(moves: Seq<Seq<char>>) -> Option<(ErrorKind, Seq<char>)>
    decreases moves.len(),
{
    if moves.len() == 0 {
        None
    } else {
        match history_failure(moves.drop_last()) {
            Some(e) => Some(e),
            None => match refusal(moves.drop_last(), moves.last()) {
                Some(why) => Some(history_error(moves.last(), why)),
                None => None,
            },
        }
    }
}

/// What a position reached by a legal move means for the game.
pub open spec fn result_of(checkmate: bool, stalemate: bool) -> MoveResult {
    if checkmate {
        MoveResult::Checkmate
    } else if stalemate {
        MoveResult::Stalemate
    } else {
        MoveResult::Legal
    }
}

/// The judgement of the new move `mv` in a game whose recorded moves are
/// `moves`.
pub open spec fn validation(moves: Seq<Seq<char>>, mv: Seq<char>) -> Result<MoveResult, (ErrorKind, Seq<char>)> {
    match history_failure(moves) {
        Some(e) => Err(e),
        None => match refusal(moves, mv) {
            Some(why) => Err(move_error(why)),
            None => Ok(result_of(checkmated(moves.push(mv)), stalemated(moves.push(mv)))),
        },
    }
}

/// The view of a judgement: the error by its kind and message.
pub open spec fn judgement(r: Result<MoveResult, Error>) -> Result<MoveResult, (ErrorKind, Seq<char>)> {
    match r {
        Ok(m) => Ok(m),
        Err(e) => Err(e@),
    }
}

/// Classifies the position after a legal move from what was found of it.
pub fn classify(checkmate: bool, stalemate: bool) -> (r: MoveResult)
    ensures
        r == result_of(checkmate, stalemate),
{
    if checkmate {
        MoveResult::Checkmate
    } else if stalemate {
        MoveResult::Stalemate
    } else {
        MoveResult::Legal
    }
}

/// The error for the recorded move `item`, refused as `why` says.
pub fn history_rejection(item: &String, why: Rejection) -> (e: Error)
    ensures
        e@ == history_error(item@, why@),
{
    match why.stage {
        Stage::Notation => {
            let mut report = String::from_str("item: ");
            report.append(item.as_str());
            report.append(" error: \"");
            report.append(why.message.as_str());
            report.append("\"");
            Error::InvalidGameHistoryNotation(report)
        },
        Stage::Resolution => Error::InvalidMoveNotation(why.message),
        Stage::Play => Error::InvalidGameHistoryMove(why.message),
    }
}

/// The error for a new move, refused as `why` says.
pub fn move_rejection(why: Rejection) -> (e: Error)
    ensures
        e@ == move_error(why@),
{
    match why.stage {
        Stage::Play => Error::InvalidMove(why.message),
        _ => Error::InvalidMoveNotation(why.message),
    }
}

proof fn lemma_failure_persists(moves: Seq<Seq<char>>, k: int)
    requires
        0 <= k <= moves.len(),
        history_failure(moves.take(k)) is Some,
    ensures
        history_failure(moves) == history_failure(moves.take(k)),
    decreases moves.len() - k,
{
    if k < moves.len() {
        assert(moves.take(k + 1).drop_last() =~= moves.take(k));
        lemma_failure_persists(moves, k + 1);
    } else {
        assert(moves.take(k) =~= moves);
    }
}

/// After the recorded `moves` and then `mv`, the game is over: the history
/// replays, and every further move is refused as notation that matches no
/// legal move.
pub open spec fn game_over_after(moves: Seq<Seq<char>>, mv: Seq<char>) -> bool {
    &&& history_failure(moves.push(mv)) is None
    &&& forall|x: Seq<char>|
        #[trigger] validation(moves.push(mv), x) is Err && validation(moves.push(mv), x)->Err_0.0
            == ErrorKind::InvalidMoveNotation
}

/// Replays the game's recorded moves from the standard start and judges the
/// move `mv` in the position they reach. A move that ends the game leaves a
/// game in which no move is accepted.
pub fn validate(g: &GameResponse, mv: &String) -> (r: Result<MoveResult, Error>)
    ensures
        judgement(r) == validation(g.moves.deep_view(), mv@),
        r matches Ok(res) && res != MoveResult::Legal ==> game_over_after(g.moves.deep_view(), mv@),
        replays(g.moves.deep_view()) && plays_in(g.moves.deep_view(), mv@) ==> r is Ok,
        r is Ok ==> replays(g.moves.deep_view()) && plays_in(g.moves.deep_view(), mv@),
        r matches Ok(res) ==> (res == MoveResult::Checkmate <==> checkmated(
            g.moves.deep_view().push(mv@),
        )),
        r matches Ok(res) ==> (res == MoveResult::Stalemate <==> (stalemated(
            g.moves.deep_view().push(mv@),
        ) && !checkmated(g.moves.deep_view().push(mv@)))),
{
    let ghost all = g.moves.deep_view();
    proof {
        history_replays_iff_every_move_plays(all);
        refusal_follows_shakmaty(all, mv@);
    }
    let mut board = Board::start();
    let n = g.moves.len();
    let mut i: usize = 0;
    assert(all.take(0) =~= Seq::<Seq<char>>::empty());
    while i < n
        invariant
            n == g.moves.len(),
            all == g.moves.deep_view(),
            i <= n,
            board@ == all.take(i as int),
            history_failure(all.take(i as int)) is None,
        decreases n - i,
    {
        let item = &g.moves[i];
        assert(all.take(i + 1).drop_last() =~= all.take(i as int));
        assert(all.take(i + 1).last() == item@);
        match board.play_san(item) {
            Ok(next) => {
                board = next;
                assert(board@ =~= all.take(i + 1));
            },
            Err(why) => {
                proof {
                    lemma_failure_persists(all, i + 1);
                }
                return Err(history_rejection(item, why));
            },
        }
        i += 1;
    }
    assert(all.take(n as int) =~= all);
    match board.play_san(mv) {
        Ok(next) => {
            let mate = next.is_checkmate();
            let stale = next.is_stalemate();
            proof {
                accepted_move_extends_history(all, mv@);
                if mate || stale {
                    assert forall|x: Seq<char>|
                        #[trigger] validation(all.push(mv@), x) is Err && validation(all.push(mv@), x)->Err_0.0
                            == ErrorKind::InvalidMoveNotation by {
                        assert(san_resolution(all.push(mv@), x) != SanResolution::Unique);
                    }
                }
            }
            Ok(classify(mate, stale))
        },
        Err(why) => Err(move_rejection(why)),
    }
}

/// A move that is accepted after a replayable history leaves a history that
/// replays: what the server records can always be played back.
pub proof fn accepted_move_extends_history(moves: Seq<Seq<char>>, mv: Seq<char>)
    requires
        validation(moves, mv) is Ok,
    ensures
        history_failure(moves.push(mv)) is None,
{
    assert(moves.push(mv).drop_last() =~= moves);
}

/// When the recorded moves do not replay, every new move is refused with the
/// error of the first recorded move that fails.
pub proof fn broken_history_refuses_every_move(moves: Seq<Seq<char>>, mv: Seq<char>)
    requires
        history_failure(moves) is Some,
    ensures
        validation(moves, mv) == Err::<MoveResult, (ErrorKind, Seq<char>)>(history_failure(moves).unwrap()),
{
}

/// Every prefix of a history that replays replays too.
pub proof fn replayable_prefixes(moves: Seq<Seq<char>>, k: int)
    requires
        history_failure(moves) is None,
        0 <= k <= moves.len(),
    ensures
        history_failure(moves.take(k)) is None,
{
    if history_failure(moves.take(k)) is Some {
        lemma_failure_persists(moves, k);
    }
}

/// A move that is accepted is one that the position after the recorded moves
/// plays; a checkmate is never reported as a stalemate.
pub proof fn accepted_move_is_played(moves: Seq<Seq<char>>, mv: Seq<char>)
    requires
        validation(moves, mv) is Ok,
    ensures
        refusal(moves, mv) is None,
        san_parses(mv),
        san_resolution(moves, mv) == SanResolution::Unique,
        checkmated(moves.push(mv)) ==> validation(moves, mv) == Ok::<MoveResult, (ErrorKind, Seq<char>)>(MoveResult::Checkmate),
{
}

/// shakmaty plays `text` after `history`: the text parses as Standard
/// Algebraic Notation, it names exactly one legal move, and the position
/// plays that move.
pub open spec fn plays_in(history: Seq<Seq<char>>, text: Seq<char>) -> bool {
    &&& san_parses(text)
    &&& san_resolution(history, text) == SanResolution::Unique
    &&& play_refusal(history, text) is None
}

/// Every recorded move is played, in order, from the standard start.
pub open spec fn replays(moves: Seq<Seq<char>>) -> bool {
    forall|i: int| 0 <= i < moves.len() ==> #[trigger] plays_in(moves.take(i), moves[i])
}

/// A move is refused exactly when shakmaty does not play it, and the refusal
/// says at which step and with shakmaty's words: text that does not parse is
/// "invalid san"; a text naming no legal move is "illegal san", one naming
/// several "ambiguous san"; a move that the position refuses carries the
/// position's message.
pub proof fn refusal_follows_shakmaty(history: Seq<Seq<char>>, text: Seq<char>)
    ensures
        refusal(history, text) is None <==> plays_in(history, text),
        !san_parses(text) ==> refusal(history, text) == Some((Stage::Notation, "invalid san"@)),
        san_parses(text) && san_resolution(history, text) == SanResolution::Illegal ==> refusal(
            history,
            text,
        ) == Some((Stage::Resolution, "illegal san"@)),
        san_parses(text) && san_resolution(history, text) == SanResolution::Ambiguous ==> refusal(
            history,
            text,
        ) == Some((Stage::Resolution, "ambiguous san"@)),
        forall|m: Seq<char>|
            san_parses(text) && san_resolution(history, text) == SanResolution::Unique
                && play_refusal(history, text) == Some(m) ==> refusal(history, text) == Some(
                (Stage::Play, m),
            ),
{
}

/// The recorded moves replay without error exactly when shakmaty plays each
/// of them in turn.
pub proof fn history_replays_iff_every_move_plays(moves: Seq<Seq<char>>)
    ensures
        history_failure(moves) is None <==> replays(moves),
    decreases moves.len(),
{
    if moves.len() > 0 {
        let front = moves.drop_last();
        history_replays_iff_every_move_plays(front);
        refusal_follows_shakmaty(front, moves.last());
        assert(moves.take(moves.len() - 1) =~= front);
        assert forall|i: int| 0 <= i < front.len() implies #[trigger] front.take(i) == moves.take(i)
            && front[i] == moves[i] by {
            assert(front.take(i) =~= moves.take(i));
        }
        if replays(moves) {
            assert forall|i: int| 0 <= i < front.len() implies #[trigger] plays_in(front.take(i), front[i]) by {
                assert(front.take(i) == moves.take(i) && front[i] == moves[i]);
                assert(plays_in(moves.take(i), moves[i]));
            }
            assert(plays_in(moves.take(moves.len() - 1), moves[moves.len() - 1]));
        }
        if replays(front) && plays_in(front, moves.last()) {
            assert forall|i: int| 0 <= i < moves.len() implies #[trigger] plays_in(moves.take(i), moves[i]) by {
                if i < front.len() {
                    assert(front.take(i) == moves.take(i) && front[i] == moves[i]);
                    assert(plays_in(front.take(i), front[i]));
                }
            }
        }
    }
}

/// After a history that replays, a move that shakmaty plays is accepted,
/// whatever the earlier moves were, and it is judged by the position it
/// reaches: checkmate, else stalemate, else a plain legal move.
pub proof fn played_move_is_accepted(moves: Seq<Seq<char>>, mv: Seq<char>)
    requires
        replays(moves),
        plays_in(moves, mv),
    ensures
        validation(moves, mv) is Ok,
        checkmated(moves.push(mv)) ==> validation(moves, mv) == Ok::<MoveResult, (ErrorKind, Seq<char>)>(
            MoveResult::Checkmate,
        ),
        !checkmated(moves.push(mv)) && stalemated(moves.push(mv)) ==> validation(moves, mv) == Ok::<
            MoveResult,
            (ErrorKind, Seq<char>),
        >(MoveResult::Stalemate),
        !checkmated(moves.push(mv)) && !stalemated(moves.push(mv)) ==> validation(moves, mv) == Ok::<
            MoveResult,
            (ErrorKind, Seq<char>),
        >(MoveResult::Legal),
{
    history_replays_iff_every_move_plays(moves);
    refusal_follows_shakmaty(moves, mv);
}

/// The judgement of an accepted move depends only on the position it
/// reaches, whichever side made it: it is a checkmate exactly when that
/// position is checkmate, a stalemate exactly when it is stalemate and not
/// checkmate, and a plain legal move otherwise.
pub proof fn accepted_move_judged_by_position(moves: Seq<Seq<char>>, mv: Seq<char>)
    requires
        validation(moves, mv) is Ok,
    ensures
        validation(moves, mv) == Ok::<MoveResult, (ErrorKind, Seq<char>)>(MoveResult::Checkmate)
            <==> checkmated(moves.push(mv)),
        validation(moves, mv) == Ok::<MoveResult, (ErrorKind, Seq<char>)>(MoveResult::Stalemate)
            <==> (stalemated(moves.push(mv)) && !checkmated(moves.push(mv))),
        validation(moves, mv) == Ok::<MoveResult, (ErrorKind, Seq<char>)>(MoveResult::Legal)
            <==> (!stalemated(moves.push(mv)) && !checkmated(moves.push(mv))),
        replays(moves),
        plays_in(moves, mv),
{
    history_replays_iff_every_move_plays(moves);
    refusal_follows_shakmaty(moves, mv);
}

/// After a history that replays, a new move that shakmaty does not play is
/// refused with the error for the step that failed: "invalid san" or the
/// resolution's words as notation errors, the position's message as an
/// invalid move.
pub proof fn unplayed_move_is_refused(moves: Seq<Seq<char>>, mv: Seq<char>)
    requires
        replays(moves),
    ensures
        !san_parses(mv) ==> validation(moves, mv) == Err::<MoveResult, (ErrorKind, Seq<char>)>(
            (ErrorKind::InvalidMoveNotation, "invalid san"@),
        ),
        san_parses(mv) && san_resolution(moves, mv) == SanResolution::Illegal ==> validation(moves, mv)
            == Err::<MoveResult, (ErrorKind, Seq<char>)>((ErrorKind::InvalidMoveNotation, "illegal san"@)),
        san_parses(mv) && san_resolution(moves, mv) == SanResolution::Ambiguous ==> validation(
            moves,
            mv,
        ) == Err::<MoveResult, (ErrorKind, Seq<char>)>(
            (ErrorKind::InvalidMoveNotation, "ambiguous san"@),
        ),
        forall|m: Seq<char>|
            san_parses(mv) && san_resolution(moves, mv) == SanResolution::Unique && play_refusal(
                moves,
                mv,
            ) == Some(m) ==> validation(moves, mv) == Err::<MoveResult, (ErrorKind, Seq<char>)>(
                (ErrorKind::InvalidMove, m),
            ),
{
    history_replays_iff_every_move_plays(moves);
    refusal_follows_shakmaty(moves, mv);
}

} // verus!
