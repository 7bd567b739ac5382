use correspondchess::chess::{
    classify, history_rejection, move_rejection, validate, Board, Error, MoveResult, Rejection,
    Stage,
};
use correspondchess::models::GameResponse;

fn game(moves: &[&str]) -> GameResponse {
    GameResponse {
        id: 1,
        white: "w".to_string(),
        black: "b".to_string(),
        created: 0,
        moves: moves.iter().map(|m| m.to_string()).collect(),
    }
}

fn error_parts(e: &Error) -> (&'static str, String) {
    match e {
        Error::InvalidMove(m) => ("InvalidMove", m.clone()),
        Error::InvalidGameHistoryNotation(m) => ("InvalidGameHistoryNotation", m.clone()),
        Error::InvalidGameHistoryMove(m) => ("InvalidGameHistoryMove", m.clone()),
        Error::InvalidMoveNotation(m) => ("InvalidMoveNotation", m.clone()),
    }
}

#[test]
fn first_move_is_legal() {
    let r = validate(&game(&[]), &"e4".to_string());
    assert!(matches!(r, Ok(MoveResult::Legal)));
}

#[test]
fn fools_mate_is_checkmate() {
    let r = validate(&game(&["f3", "e5", "g4"]), &"Qh4#".to_string());
    assert!(matches!(r, Ok(MoveResult::Checkmate)));
}

#[test]
fn quickest_stalemate_is_stalemate() {
    let history = [
        "e3", "a5", "Qh5", "Ra6", "Qxa5", "h5", "h4", "Rah6", "Qxc7", "f6", "Qxd7+", "Kf7", "Qxb7",
        "Qd3", "Qxb8", "Qh7", "Qxc8", "Kg6",
    ];
    let r = validate(&game(&history), &"Qe6".to_string());
    assert!(matches!(r, Ok(MoveResult::Stalemate)));
}

#[test]
fn new_move_not_notation() {
    let r = validate(&game(&["e4"]), &"zz9".to_string());
    let e = r.unwrap_err();
    assert_eq!(error_parts(&e), ("InvalidMoveNotation", "invalid san".to_string()));
    assert_eq!(e.message(), "invalid san");
}

#[test]
fn new_move_illegal() {
    let r = validate(&game(&[]), &"e5".to_string());
    assert_eq!(error_parts(&r.unwrap_err()), ("InvalidMoveNotation", "illegal san".to_string()));
}

#[test]
fn new_move_ambiguous_and_disambiguated() {
    let history = ["Nc3", "a6", "Ne4", "a5", "Nf3", "h6"];
    let r = validate(&game(&history), &"Ng5".to_string());
    assert_eq!(error_parts(&r.unwrap_err()), ("InvalidMoveNotation", "ambiguous san".to_string()));
    let r = validate(&game(&history), &"Neg5".to_string());
    assert!(matches!(r, Ok(MoveResult::Legal)));
}

#[test]
fn history_not_notation_reports_item() {
    let r = validate(&game(&["e4", "zz"]), &"e4".to_string());
    assert_eq!(
        error_parts(&r.unwrap_err()),
        ("InvalidGameHistoryNotation", "item: zz error: \"invalid san\"".to_string())
    );
}

#[test]
fn history_illegal_move_is_notation_error() {
    let r = validate(&game(&["e4", "e4"]), &"d4".to_string());
    assert_eq!(error_parts(&r.unwrap_err()), ("InvalidMoveNotation", "illegal san".to_string()));
}

#[test]
fn broken_history_refuses_any_move() {
    for mv in ["e4", "zz", "Qh4#"] {
        let r = validate(&game(&["yy", "e4"]), &mv.to_string());
        assert_eq!(
            error_parts(&r.unwrap_err()),
            ("InvalidGameHistoryNotation", "item: yy error: \"invalid san\"".to_string())
        );
    }
}

#[test]
fn accepted_move_extends_history_replays() {
    let mut moves: Vec<&str> = vec![];
    for mv in ["e4", "e5", "Nf3", "Nc6", "Bb5", "a6"] {
        assert!(validate(&game(&moves), &mv.to_string()).is_ok());
        moves.push(mv);
    }
    assert!(validate(&game(&moves), &"Ba4".to_string()).is_ok());
}

#[test]
fn check_suffix_is_accepted() {
    let r = validate(&game(&["e4", "f5"]), &"Qh5+".to_string());
    assert!(matches!(r, Ok(MoveResult::Legal)));
}

#[test]
fn board_records_moves() {
    let b = Board::start();
    assert!(b.moves().is_empty());
    let b = b.play_san(&"d4".to_string()).ok().unwrap();
    let b = b.play_san(&"d5".to_string()).ok().unwrap();
    assert_eq!(b.moves(), &vec!["d4".to_string(), "d5".to_string()]);
    assert!(!b.is_checkmate());
    assert!(!b.is_stalemate());
    let refused = b.play_san(&"Ke3".to_string());
    match refused {
        Err(r) => {
            assert_eq!(r.stage, Stage::Resolution);
            assert_eq!(r.message, "illegal san");
        }
        Ok(_) => panic!("king cannot jump"),
    }
}

#[test]
fn board_notation_stage() {
    match Board::start().play_san(&"".to_string()) {
        Err(r) => {
            assert_eq!(r.stage, Stage::Notation);
            assert_eq!(r.message, "invalid san");
        }
        Ok(_) => panic!("empty text is no move"),
    }
}

#[test]
fn classify_priorities() {
    assert_eq!(classify(true, false), MoveResult::Checkmate);
    assert_eq!(classify(true, true), MoveResult::Checkmate);
    assert_eq!(classify(false, true), MoveResult::Stalemate);
    assert_eq!(classify(false, false), MoveResult::Legal);
}

#[test]
fn rejections_map_to_errors() {
    let why = |stage, m: &str| Rejection { stage, message: m.to_string() };
    let item = "Zq9".to_string();
    assert_eq!(
        error_parts(&history_rejection(&item, why(Stage::Notation, "invalid san"))),
        ("InvalidGameHistoryNotation", "item: Zq9 error: \"invalid san\"".to_string())
    );
    assert_eq!(
        error_parts(&history_rejection(&item, why(Stage::Resolution, "illegal san"))),
        ("InvalidMoveNotation", "illegal san".to_string())
    );
    assert_eq!(
        error_parts(&history_rejection(&item, why(Stage::Play, "illegal move"))),
        ("InvalidGameHistoryMove", "illegal move".to_string())
    );
    assert_eq!(
        error_parts(&move_rejection(why(Stage::Notation, "invalid san"))),
        ("InvalidMoveNotation", "invalid san".to_string())
    );
    assert_eq!(
        error_parts(&move_rejection(why(Stage::Resolution, "ambiguous san"))),
        ("InvalidMoveNotation", "ambiguous san".to_string())
    );
    assert_eq!(
        error_parts(&move_rejection(why(Stage::Play, "illegal move"))),
        ("InvalidMove", "illegal move".to_string())
    );
}

#[test]
fn prefixes_of_a_replayable_history_replay() {
    let history = ["d4", "Nf6", "c4", "e6", "Nc3", "Bb4", "Qc2", "O-O", "a3", "Bxc3+", "Qxc3"];
    for k in 0..history.len() {
        assert!(validate(&game(&history[..k]), &history[k].to_string()).is_ok());
    }
}

#[test]
fn castling_and_promotion_notation() {
    let history = ["e4", "e5", "Nf3", "Nc6", "Bc4", "Bc5"];
    assert!(matches!(validate(&game(&history), &"O-O".to_string()), Ok(MoveResult::Legal)));
    let promo = ["a4", "b5", "axb5", "a6", "bxa6", "Bb7", "axb7", "Nc6"];
    assert!(matches!(validate(&game(&promo), &"bxa8=Q".to_string()), Ok(MoveResult::Legal)));
    assert_eq!(
        error_parts(&validate(&game(&promo), &"bxa8=X".to_string()).unwrap_err()),
        ("InvalidMoveNotation", "invalid san".to_string())
    );
}

#[test]
fn finished_games_refuse_every_move() {
    let mated = game(&["f3", "e5", "g4", "Qh4#"]);
    for m in ["e4", "Kf2", "Nh3", "a3", "Qh4"] {
        let e = validate(&mated, &m.to_string()).unwrap_err();
        assert_eq!(error_parts(&e), ("InvalidMoveNotation", "illegal san".to_string()));
    }
    let stalemated = game(&[
        "e3", "a5", "Qh5", "Ra6", "Qxa5", "h5", "h4", "Rah6", "Qxc7", "f6", "Qxd7+", "Kf7", "Qxb7",
        "Qd3", "Qxb8", "Qh7", "Qxc8", "Kg6", "Qe6",
    ]);
    for m in ["Kh8", "Kg7", "Qg6", "Rh7", "e5"] {
        let e = validate(&stalemated, &m.to_string()).unwrap_err();
        assert_eq!(error_parts(&e), ("InvalidMoveNotation", "illegal san".to_string()));
    }
}
