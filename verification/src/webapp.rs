//! The decisions of the web handlers: game links and what they decode to,
//! and the answers to the REST requests.
//!
//! Game links hold a hashid (harsh) of two numbers: the game's id and the
//! player's side. The hashids depend only on the salt that
//! the [`SlugCodec`] was built with; that salt is the codec's view.

use vstd::prelude::*;
use vstd::string::*;
use vstd::utf8::is_ascii_chars;

use crate::api::rest::{CreateGameResponse, GetGameResponse, PlayerMoveResponse};
use crate::api::ws::{Message, PlayerMoveMessage};
use crate::api::actor::NotifyMessage;
use crate::api::{opponent_of, side_of_code, PlayerSide};
use crate::models::GameResponse;
use crate::wsserver::SubscribeKey;
use crate::hashid::{
    builder_build, builder_salt, decode_hashid, encode_hashid, harsh_builder, hashid_decode,
    hashid_encode,
};
pub use crate::hashid::SlugCodec;

verus! {

broadcast use vstd::std_specs::vec::group_vec_axioms;


/// The characters that harsh's default configuration uses to separate the
/// numbers of a hashid.
pub open spec fn is_separator(c: char) -> bool {
    "cfhistuCFHISTU"@.contains(c)
}

/// The most digits that a number of a hashid can have for decoding to be
/// free of overflow whatever the digits: harsh writes numbers in base 44 (the
/// 62 default letters less 14 separators and 4 guards), and 44^11 < 2^64.
pub open spec fn max_run() -> int {
    11
}

/// One of the `max_run() + 1` characters from position `i` on separates.
pub open spec fn separator_within(text: Seq<char>, i: int) -> bool {
    exists|k: int| i <= k <= i + max_run() && is_separator(#[trigger] text[k])
}

/// The text is ASCII and, after its first character (the letter that harsh
/// reads as the "lottery" and not as a digit), no `max_run() + 1`
/// consecutive characters are all non-separators.
pub open spec fn decodable(text: Seq<char>) -> bool {
    &&& is_ascii_chars(text)
    &&& forall|i: int|
        1 <= i && i + max_run() < text.len() ==> #[trigger] separator_within(text, i)
}

/// The numbers below which harsh writes at most `max_run()` digits.
pub open spec fn short_number_bound() -> int {
    1196683881290399744
}


/// What a game link names: the game and the number of the side.
#[derive(Debug, Clone, Copy, PartialEq, Eq, Structural)]
pub struct GameSlug {
    pub game_id: i32,
    pub side_code: u64,
}

impl GameSlug {
    /// The side that the link belongs to.
    pub fn side(&self) -> (s: PlayerSide)
        ensures
            s == side_of_code(self.side_code),
    {
        PlayerSide::from(self.side_code)
    }
}

/// What a decoded link names: the first number is the game, the second the
/// side; fewer than two numbers name nothing.
pub open spec fn slug_of_ids(ids: Seq<u64>) -> Option<GameSlug> {
    if ids.len() < 2 {
        None
    } else {
        Some(GameSlug { game_id: ids[0] as i32, side_code: ids[1] })
    }
}

/// What the link `text` names for a codec with salt `salt`.
pub open spec fn slug_target(salt: Seq<char>, text: Seq<char>) -> Option<GameSlug> {
    if !decodable(text) {
        None
    } else {
        match hashid_decode(salt, text) {
            Some(ids) => slug_of_ids(ids),
            None => None,
        }
    }
}

/// The hashid of the link to game `id` for the side numbered `side_code`:
/// the hashid of `[id, side_code]`.
pub open spec fn link_hashid(salt: Seq<char>, id: i32, side_code: u64) -> Seq<char> {
    hashid_encode(salt, seq![id as u64, side_code])
}

/// Whether `text` has only ASCII characters and no long runs; exactly
/// `decodable(text@)`.
pub fn is_decodable(text: &String) -> (r: bool)
    ensures
        r == decodable(text@),
{
    let s = text.as_str();
    if !s.is_ascii() {
        proof {
            assert(!decodable(text@));
        }
        return false;
    }
    assert(is_ascii_chars(s@));
    let n = s.unicode_len();
    let mut run: usize = 0;
    let mut i: usize = 0;
    while i < n
        invariant
            n == text@.len(),
            s@ == text@,
            is_ascii_chars(s@),
            i <= n,
            i > 0 ==> run < i,
            i == 0 ==> run == 0,
            run <= max_run(),
            // the last `run` characters are non-separators after the first
            // character; the one before them is the first character or a separator
            forall|k: int| i - run <= k < i ==> !is_separator(#[trigger] text@[k]),
            run < i ==> (i - run - 1 == 0 || is_separator(text@[i - run - 1])),
            forall|j: int| 1 <= j && j + max_run() < i ==> #[trigger] separator_within(text@, j),
        decreases n - i,
    {
        let c = s.get_ascii(i);
        let sep = c == 99u8 || c == 102u8 || c == 104u8 || c == 105u8 || c == 115u8 || c == 116u8
            || c == 117u8 || c == 67u8 || c == 70u8 || c == 72u8 || c == 73u8 || c == 83u8
            || c == 84u8 || c == 85u8;
        proof {
            reveal_strlit("cfhistuCFHISTU");
            let ch = text@[i as int];
            assert(ch as u8 == c);
            if sep {
                assert(is_separator(ch) ) by {
                    let sepset = "cfhistuCFHISTU"@;
                    if c == 99u8 { assert(sepset[0] == ch); }
                    else if c == 102u8 { assert(sepset[1] == ch); }
                    else if c == 104u8 { assert(sepset[2] == ch); }
                    else if c == 105u8 { assert(sepset[3] == ch); }
                    else if c == 115u8 { assert(sepset[4] == ch); }
                    else if c == 116u8 { assert(sepset[5] == ch); }
                    else if c == 117u8 { assert(sepset[6] == ch); }
                    else if c == 67u8 { assert(sepset[7] == ch); }
                    else if c == 70u8 { assert(sepset[8] == ch); }
                    else if c == 72u8 { assert(sepset[9] == ch); }
                    else if c == 73u8 { assert(sepset[10] == ch); }
                    else if c == 83u8 { assert(sepset[11] == ch); }
                    else if c == 84u8 { assert(sepset[12] == ch); }
                    else { assert(sepset[13] == ch); }
                }
            } else {
                assert(!is_separator(ch)) by {
                    let sepset = "cfhistuCFHISTU"@;
                    if sepset.contains(ch) {
                        let q = choose|q: int| 0 <= q < sepset.len() && sepset[q] == ch;
                        assert(sepset[q] as u8 == c);
                    }
                }
            }
        }
        let boundary = i == 0 || sep;
        if boundary {
            run = 0;
        } else {
            if run == 11 {
                proof {
                    let j = i - 11;
                    assert forall|k: int| j <= k <= j + max_run() implies !is_separator(#[trigger] text@[k]) by {}
                    assert(!separator_within(text@, j));
                    assert(!decodable(text@));
                }
                return false;
            }
            run = run + 1;
        }
        proof {
            assert forall|j: int| 1 <= j && j + max_run() < i + 1 implies #[trigger] separator_within(text@, j) by {
                if j + max_run() == i {
                    if sep {
                        assert(is_separator(text@[i as int]));
                    } else {
                        assert(is_separator(text@[i - run]));
                    }
                }
            }
        }
        i = i + 1;
    }
    true
}

impl SlugCodec {
    /// A codec whose hashids are salted with `salt`.
    pub fn new(salt: &String) -> (c: SlugCodec)
        ensures
            c@ == salt@,
    {
        match builder_build(builder_salt(harsh_builder(), salt)) {
            Ok(codec) => codec,
            Err(_) => vstd::pervasive::unreached(),
        }
    }

    /// The game and side that the link `text` names, if any.
    ///
    /// Texts with a run of `max_run() + 1` or more non-separator letters after
    /// the first letter, and texts that are not ASCII, are refused before
    /// decoding. On such a text harsh may read a number of twelve base-44
    /// digits, and then its unchecked addition can overflow; which of these
    /// texts overflow depends on the digit alphabet that harsh shuffles from
    /// the salt, so all of them are left out. They include every hashid
    /// holding a number of at least 44^11, such as the links of a negative
    /// game id, whose first number is at least 2^63. The links that
    /// `create_game_response` makes for a game id that is not negative hold
    /// only shorter numbers and are read back.
    pub fn decode_slug(&self, text: &String) -> (r: Option<GameSlug>)
        ensures
            r == slug_target(self@, text@),
    {
        if !is_decodable(text) {
            return None;
        }
        match decode_hashid(self, text) {
            Ok(ids) => slug_from_ids(&ids),
            Err(_) => None,
        }
    }

    /// The links of the new game `id`: `/g/` and the hashid of
    /// `[id, 0]` for white, of `[id, 1]` for black. For a game id that is not
    /// negative, each link decodes to the game and its side.
    pub fn create_game_response(&self, id: i32) -> (r: CreateGameResponse)
        ensures
            r.white@ == "/g/"@ + link_hashid(self@, id, 0),
            r.black@ == "/g/"@ + link_hashid(self@, id, 1),
            id >= 0 ==> slug_target(self@, link_hashid(self@, id, 0)) == Some(
                GameSlug { game_id: id, side_code: 0 },
            ),
            id >= 0 ==> slug_target(self@, link_hashid(self@, id, 1)) == Some(
                GameSlug { game_id: id, side_code: 1 },
            ),
            decodable(link_hashid(self@, id, 0)) ==> slug_target(self@, link_hashid(self@, id, 0))
                == Some(GameSlug { game_id: id, side_code: 0 }),
            decodable(link_hashid(self@, id, 1)) ==> slug_target(self@, link_hashid(self@, id, 1))
                == Some(GameSlug { game_id: id, side_code: 1 }),
    {
        let mut white_ids: Vec<u64> = Vec::new();
        white_ids.push(id as u64);
        white_ids.push(0);
        let mut black_ids: Vec<u64> = Vec::new();
        black_ids.push(id as u64);
        black_ids.push(1);
        assert(white_ids@ =~= seq![id as u64, 0u64]);
        assert(black_ids@ =~= seq![id as u64, 1u64]);
        let white_hash = encode_hashid(self, &white_ids);
        let black_hash = encode_hashid(self, &black_ids);
        proof {
            lemma_id_round_trip(id);
            if id >= 0 {
                assert((id as u64) < short_number_bound());
            }
        }
        let mut white = String::from_str("/g/");
        white.append(white_hash.as_str());
        let mut black = String::from_str("/g/");
        black.append(black_hash.as_str());
        CreateGameResponse { white, black }
    }
}

/// A game id survives the trip through a link's `u64`.
proof fn lemma_id_round_trip(id: i32)
    ensures
        (id as u64) as i32 == id,
{
    assert((id as u64) as i32 == id) by (bit_vector);
}

/// The game and side that a decoded link names.
pub fn slug_from_ids(ids: &Vec<u64>) -> (r: Option<GameSlug>)
    ensures
        r == slug_of_ids(ids@),
{
    if ids.len() < 2 {
        None
    } else {
        Some(GameSlug { game_id: ids[0] as i32, side_code: ids[1] })
    }
}

/// How a game page names the player's side: number 0 is white, any other
/// number black.
pub open spec fn side_label(code: u64) -> Seq<char> {
    if code == 0 {
        "white"@
    } else {
        "black"@
    }
}

/// The game as the player of the link `slug` sees it.
pub fn get_game_response(game: GameResponse, slug: &GameSlug) -> (r: GetGameResponse)
    ensures
        r.created == game.created,
        r.white == game.white,
        r.black == game.black,
        r.moves@ == game.moves@,
        r.side@ == side_label(slug.side_code),
{
    let side = if slug.side_code == 0 {
        String::from_str("white")
    } else {
        String::from_str("black")
    };
    GetGameResponse {
        created: game.created,
        white: game.white,
        black: game.black,
        side,
        moves: game.moves,
    }
}

/// The nickname of the player whose side is `side`; a link of no side names
/// nobody.
pub fn session_handle(game: &GameResponse, side: PlayerSide) -> (r: Option<String>)
    ensures
        r == match side {
            PlayerSide::White => Some(game.white),
            PlayerSide::Black => Some(game.black),
            PlayerSide::Neither => None::<String>,
        },
{
    match side {
        PlayerSide::White => Some(game.white.clone()),
        PlayerSide::Black => Some(game.black.clone()),
        PlayerSide::Neither => None,
    }
}

/// The subscription of a websocket session opened with the link `slug`.
pub fn session_subscription(slug: &GameSlug) -> (k: SubscribeKey)
    ensures
        k == (SubscribeKey { game_id: slug.game_id, side: side_of_code(slug.side_code) }),
{
    SubscribeKey { game_id: slug.game_id, side: slug.side() }
}

/// The answer to a player's move `san` made with the link `slug`, given
/// whether it was recorded (or the message of why not), and the
/// notification for the opponent when it was.
pub fn move_reply(slug: &GameSlug, san: String, outcome: Result<(), String>) -> (r: (
    PlayerMoveResponse,
    Option<NotifyMessage>,
))
    ensures
        match outcome {
            Ok(_) => {
                &&& r.0.status
                &&& r.0.description@ == "Player moved"@
                &&& r.1 matches Some(n) && n.key == (SubscribeKey {
                    game_id: slug.game_id,
                    side: opponent_of(side_of_code(slug.side_code)),
                }) && n.msg == Message::OpponentMove(PlayerMoveMessage { san })
            },
            Err(e) => {
                &&& !r.0.status
                &&& r.0.description == e
                &&& r.1 is None
            },
        },
{
    match outcome {
        Ok(_) => {
            let side = slug.side();
            let key = SubscribeKey { game_id: slug.game_id, side: side.opponent() };
            let msg = Message::from(PlayerMoveMessage::from(san));
            let response = PlayerMoveResponse {
                status: true,
                description: String::from_str("Player moved"),
            };
            (response, Some(NotifyMessage { key, msg }))
        },
        Err(e) => (PlayerMoveResponse { status: false, description: e }, None),
    }
}

} // verus!
