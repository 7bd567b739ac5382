use correspondchess::api::PlayerSide;
use correspondchess::models::GameResponse;
use correspondchess::webapp::{
    get_game_response, is_decodable, move_reply, session_handle, session_subscription,
    slug_from_ids, GameSlug, SlugCodec,
};
use correspondchess::wsserver::SubscribeKey;
use correspondchess::api::ws::Message;

const SALT: &str = "kujlturenbvjccna";

fn codec() -> SlugCodec {
    SlugCodec::new(&SALT.to_string())
}

fn harsh() -> harsh::Harsh {
    harsh::Harsh::builder().salt(SALT).build().unwrap()
}

fn slug_of(link: &str) -> String {
    assert!(link.starts_with("/g/"));
    link[3..].to_string()
}

#[test]
fn links_are_hashids_of_game_and_side() {
    let r = codec().create_game_response(42);
    assert_eq!(r.white, format!("/g/{}", harsh().encode(&[42, 0])));
    assert_eq!(r.black, format!("/g/{}", harsh().encode(&[42, 1])));
    assert_ne!(r.white, r.black);
}

#[test]
fn links_decode_to_their_game_and_side() {
    let c = codec();
    let r = c.create_game_response(42);
    assert_eq!(c.decode_slug(&slug_of(&r.white)), Some(GameSlug { game_id: 42, side_code: 0 }));
    assert_eq!(c.decode_slug(&slug_of(&r.black)), Some(GameSlug { game_id: 42, side_code: 1 }));
    let r = c.create_game_response(i32::MAX);
    assert_eq!(
        c.decode_slug(&slug_of(&r.black)),
        Some(GameSlug { game_id: i32::MAX, side_code: 1 })
    );
    let r = c.create_game_response(0);
    assert_eq!(c.decode_slug(&slug_of(&r.white)), Some(GameSlug { game_id: 0, side_code: 0 }));
}

#[test]
fn negative_game_ids_are_refused() {
    let c = codec();
    let r = c.create_game_response(-3);
    let slug = slug_of(&r.white);
    assert_eq!(harsh().decode(&slug).unwrap(), vec![(-3i32) as u64, 0]);
    assert!(!is_decodable(&slug));
    assert_eq!(c.decode_slug(&slug), None);
}

#[test]
fn eleven_digit_numbers_decode() {
    let c = codec();
    let ten_digits = 27197360938418176u64; // 44^10
    let slug = harsh().encode(&[5, ten_digits]);
    assert!(is_decodable(&slug));
    assert_eq!(c.decode_slug(&slug), Some(GameSlug { game_id: 5, side_code: ten_digits }));
    let slug = harsh().encode(&[ten_digits, 0]);
    assert!(is_decodable(&slug));
    assert_eq!(c.decode_slug(&slug), Some(GameSlug { game_id: ten_digits as i32, side_code: 0 }));
    let largest = 1196683881290399743u64; // 44^11 - 1
    let slug = harsh().encode(&[largest, 1]);
    assert!(is_decodable(&slug));
    assert_eq!(c.decode_slug(&slug), Some(GameSlug { game_id: largest as i32, side_code: 1 }));
}

#[test]
fn twelve_digit_numbers_are_refused() {
    let c = codec();
    let slug = harsh().encode(&[1196683881290399744u64, 0]); // 44^11
    assert!(!is_decodable(&slug));
    assert_eq!(c.decode_slug(&slug), None);
}

#[test]
fn other_salts_do_not_decode_the_same() {
    let r = codec().create_game_response(42);
    let other = SlugCodec::new(&"another salt".to_string());
    assert_ne!(other.decode_slug(&slug_of(&r.white)), Some(GameSlug { game_id: 42, side_code: 0 }));
}

#[test]
fn garbage_slugs_name_nothing() {
    let c = codec();
    assert_eq!(c.decode_slug(&"".to_string()), None);
    assert_eq!(c.decode_slug(&"x".to_string()), None);
    assert_eq!(c.decode_slug(&"not-a-slug".to_string()), None);
    assert_eq!(c.decode_slug(&"héllo".to_string()), None);
}

#[test]
fn one_number_names_nothing() {
    let c = codec();
    let one = harsh().encode(&[7]);
    assert_eq!(c.decode_slug(&one), None);
    let three = harsh().encode(&[2, 1, 7]);
    assert_eq!(c.decode_slug(&three), Some(GameSlug { game_id: 2, side_code: 1 }));
}

#[test]
fn decodable_texts() {
    assert!(is_decodable(&"".to_string()));
    assert!(is_decodable(&"abcdefghijklmnopqrstuvwxyz".to_string()));
    assert!(is_decodable(&"abdegjkABDEG".to_string()));
    assert!(!is_decodable(&"abdegjkABDEGJ".to_string()));
    assert!(!is_decodable(&"sabdegjkABDEG".to_string()));
    assert!(is_decodable(&"abdegjkABDE".to_string()));
    assert!(is_decodable(&"abdegjkABDEsabdegjkABDE".to_string()));
    assert!(!is_decodable(&"abdegjkABDEsabdegjkABDEG".to_string()));
    assert!(!is_decodable(&"é".to_string()));
}

#[test]
fn long_runs_are_refused_before_decoding() {
    let c = codec();
    assert_eq!(c.decode_slug(&"abdegjkABDEGJ".to_string()), None);
}

#[test]
fn slug_ids() {
    assert_eq!(slug_from_ids(&vec![]), None);
    assert_eq!(slug_from_ids(&vec![2]), None);
    assert_eq!(slug_from_ids(&vec![2, 3]), Some(GameSlug { game_id: 2, side_code: 3 }));
    assert_eq!(slug_from_ids(&vec![2, 3, 9]), Some(GameSlug { game_id: 2, side_code: 3 }));
    assert_eq!(slug_from_ids(&vec![u64::MAX, 0]), Some(GameSlug { game_id: -1, side_code: 0 }));
    assert_eq!(slug_from_ids(&vec![1 << 32 | 5, 0]), Some(GameSlug { game_id: 5, side_code: 0 }));
}

fn a_game() -> GameResponse {
    GameResponse {
        id: 3,
        white: "ann".to_string(),
        black: "bob".to_string(),
        created: 99,
        moves: vec!["e4".to_string()],
    }
}

#[test]
fn game_page_side_labels() {
    let p = get_game_response(a_game(), &GameSlug { game_id: 3, side_code: 0 });
    assert_eq!(p.side, "white");
    assert_eq!(p.created, 99);
    assert_eq!(p.white, "ann");
    assert_eq!(p.black, "bob");
    assert_eq!(p.moves, vec!["e4"]);
    assert_eq!(get_game_response(a_game(), &GameSlug { game_id: 3, side_code: 1 }).side, "black");
    assert_eq!(get_game_response(a_game(), &GameSlug { game_id: 3, side_code: 7 }).side, "black");
}

#[test]
fn session_handles() {
    assert_eq!(session_handle(&a_game(), PlayerSide::White), Some("ann".to_string()));
    assert_eq!(session_handle(&a_game(), PlayerSide::Black), Some("bob".to_string()));
    assert_eq!(session_handle(&a_game(), PlayerSide::Neither), None);
    assert_eq!(
        session_subscription(&GameSlug { game_id: 3, side_code: 1 }),
        SubscribeKey { game_id: 3, side: PlayerSide::Black }
    );
    assert_eq!(
        session_subscription(&GameSlug { game_id: 3, side_code: 5 }),
        SubscribeKey { game_id: 3, side: PlayerSide::Neither }
    );
}

#[test]
fn recorded_move_notifies_opponent() {
    let (resp, note) = move_reply(&GameSlug { game_id: 3, side_code: 0 }, "e4".to_string(), Ok(()));
    assert!(resp.status);
    assert_eq!(resp.description, "Player moved");
    let note = note.unwrap();
    assert_eq!(note.key, SubscribeKey { game_id: 3, side: PlayerSide::Black });
    match note.msg {
        Message::OpponentMove(m) => assert_eq!(m.san, "e4"),
    }
    let (_, note) = move_reply(&GameSlug { game_id: 3, side_code: 1 }, "e5".to_string(), Ok(()));
    assert_eq!(note.unwrap().key, SubscribeKey { game_id: 3, side: PlayerSide::White });
}

#[test]
fn refused_move_notifies_nobody() {
    let (resp, note) = move_reply(
        &GameSlug { game_id: 3, side_code: 0 },
        "e5".to_string(),
        Err("\"illegal san\"".to_string()),
    );
    assert!(!resp.status);
    assert_eq!(resp.description, "\"illegal san\"");
    assert!(note.is_none());
}
