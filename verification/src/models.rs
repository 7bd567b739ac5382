//! Games and their recorded moves, as the store hands them over.

use vstd::prelude::*;

use crate::chess;

verus! {

broadcast use vstd::std_specs::vec::group_vec_axioms;

/// A stored game.
#[derive(Debug, Clone)]
pub struct Game {
    pub id: i32,
    pub created: i64,
    pub white: String,
    pub black: String,
}

/// A stored move of a game. Rows are numbered in the order they were stored.
#[derive(Debug, Clone)]
pub struct MoveRow {
    pub id: i32,
    pub game_id: i32,
    pub player_move: String,
}

/// A game together with the moves recorded for it, oldest first.
#[derive(Debug, Clone)]
pub struct GameResponse {
    pub id: i32,
    pub white: String,
    pub black: String,
    pub created: i64,
    pub moves: Vec<String>,
}

/// Row `a` comes before row `b`: by id, and rows with equal ids keep the
/// order in which they were given.
pub open spec fn row_before(rows: Seq<MoveRow>, a: int, b: int) -> bool {
    rows[a].id < rows[b].id || (rows[a].id == rows[b].id && a < b)
}

/// `order` lists every row index exactly once, sorted by id; rows with equal
/// ids keep their order (a stable sort by id).
pub open spec fn is_id_order(rows: Seq<MoveRow>, order: Seq<int>) -> bool {
    &&& order.len() == rows.len()
    &&& forall|k: int| 0 <= k < order.len() ==> 0 <= #[trigger] order[k] < rows.len()
    &&& forall|x: int| 0 <= x < rows.len() ==> #[trigger] order.contains(x)
    &&& forall|k: int, l: int|
        0 <= k < l < order.len() ==> row_before(rows, #[trigger] order[k], #[trigger] order[l])
}

/// The moves of `rows` listed in `order`.
pub open spec fn moves_in_order(rows: Seq<MoveRow>, order: Seq<int>) -> Seq<Seq<char>> {
    order.map_values(|k: int| rows[k].player_move@)
}

/// The positions, as `usize`, of `v` seen as integers.
pub open spec fn as_ints(v: Seq<usize>) -> Seq<int> {
    v.map_values(|k: usize| k as int)
}

/// The stable order by id of the given rows.
pub fn id_order(rows: &Vec<MoveRow>) -> (order: Vec<usize>)
    ensures
        is_id_order(rows@, as_ints(order@)),
{
    let n = rows.len();
    let mut order: Vec<usize> = Vec::new();
    let mut j: usize = 0;
    while j < n
        invariant
            n == rows.len(),
            j <= n,
            order.len() == j,
            forall|k: int| 0 <= k < order.len() ==> #[trigger] order@[k] < j,
            forall|x: int| 0 <= x < j ==> #[trigger] as_ints(order@).contains(x),
            forall|k: int, l: int|
                0 <= k < l < order.len() ==> row_before(
                    rows@,
                    #[trigger] order@[k] as int,
                    #[trigger] order@[l] as int,
                ),
        decreases n - j,
    {
        let key = rows[j].id;
        let mut p: usize = 0;
        while p < order.len() && rows[order[p]].id <= key
            invariant
                n == rows.len(),
                j < n,
                p <= order.len(),
                forall|k: int| 0 <= k < order.len() ==> #[trigger] order@[k] < j,
                forall|k: int| 0 <= k < p ==> rows@[#[trigger] order@[k] as int].id <= key,
                key == rows@[j as int].id,
            decreases order.len() - p,
        {
            p += 1;
        }
        let ghost old_order = order@;
        proof {
            assert forall|k: int| p <= k < old_order.len() implies rows@[#[trigger] old_order[k] as int].id > key by {
                if k > p {
                    assert(row_before(rows@, old_order[p as int] as int, old_order[k] as int));
                }
            }
        }
        order.insert(p, j);
        proof {
            let new_order = order@;
            assert(new_order =~= old_order.insert(p as int, j));
            assert forall|k: int, l: int|
                0 <= k < l < new_order.len() implies row_before(
                rows@,
                #[trigger] new_order[k] as int,
                #[trigger] new_order[l] as int,
            ) by {
                if l < p {
                    assert(new_order[k] == old_order[k] && new_order[l] == old_order[l]);
                } else if l == p {
                    assert(new_order[k] == old_order[k]);
                } else if k < p {
                    assert(new_order[k] == old_order[k] && new_order[l] == old_order[l - 1]);
                } else if k == p {
                    assert(new_order[l] == old_order[l - 1]);
                } else {
                    assert(new_order[k] == old_order[k - 1] && new_order[l] == old_order[l - 1]);
                }
            }
            assert forall|x: int| 0 <= x < j + 1 implies #[trigger] as_ints(new_order).contains(x) by {
                if x == j {
                    assert(as_ints(new_order)[p as int] == x);
                } else {
                    assert(as_ints(old_order).contains(x));
                    let q = choose|q: int| 0 <= q < old_order.len() && as_ints(old_order)[q] == x;
                    if q < p {
                        assert(as_ints(new_order)[q] == x);
                    } else {
                        assert(as_ints(new_order)[q + 1] == x);
                    }
                }
            }
        }
        j += 1;
    }
    order
}

impl GameResponse {
    /// The game with its moves, sorted by row id.
    pub fn from(x: (Game, Vec<MoveRow>)) -> (r: GameResponse)
        ensures
            r.id == x.0.id,
            r.white == x.0.white,
            r.black == x.0.black,
            r.created == x.0.created,
            exists|order: Seq<int>|
                is_id_order(x.1@, order) && r.moves.deep_view() == moves_in_order(x.1@, order),
    {
        let (game, rows) = x;
        let order = id_order(&rows);
        let n = order.len();
        let mut moves: Vec<String> = Vec::new();
        let mut k: usize = 0;
        while k < n
            invariant
                n == order.len(),
                n == rows.len(),
                k <= n,
                is_id_order(rows@, as_ints(order@)),
                moves.deep_view() == moves_in_order(rows@, as_ints(order@)).take(k as int),
            decreases n - k,
        {
            let ghost wanted = moves_in_order(rows@, as_ints(order@));
            assert(as_ints(order@)[k as int] == order@[k as int] as int);
            let text = rows[order[k]].player_move.clone();
            assert(text@ == wanted[k as int]);
            assert(wanted.len() == n && moves.deep_view().len() == k);
            moves.push(text);
            assert(moves.deep_view() =~= wanted.take(k + 1));
            k += 1;
        }
        assert(moves_in_order(rows@, as_ints(order@)).take(n as int) =~= moves_in_order(rows@, as_ints(order@)));
        GameResponse { id: game.id, white: game.white, black: game.black, created: game.created, moves }
    }
}

/// The order of a game's moves is fixed by its rows: two orders that both
/// list every row once, sorted by id and stable, are the same order.
pub proof fn id_order_unique(rows: Seq<MoveRow>, o1: Seq<int>, o2: Seq<int>)
    requires
        is_id_order(rows, o1),
        is_id_order(rows, o2),
    ensures
        o1 == o2,
{
    assert forall|i: int| 0 <= i < o1.len() implies o1[i] == o2[i] by {
        lemma_orders_agree_upto(rows, o1, o2, i);
    }
    assert(o1 =~= o2);
}

proof fn lemma_orders_agree_upto(rows: Seq<MoveRow>, o1: Seq<int>, o2: Seq<int>, i: int)
    requires
        is_id_order(rows, o1),
        is_id_order(rows, o2),
        0 <= i < o1.len(),
    ensures
        forall|k: int| 0 <= k <= i ==> o1[k] == o2[k],
    decreases i,
{
    if i > 0 {
        lemma_orders_agree_upto(rows, o1, o2, i - 1);
    }
    let a = o1[i];
    let b = o2[i];
    if a != b {
        assert(o2.contains(a));
        assert(o1.contains(b));
        let j = choose|j: int| 0 <= j < o2.len() && o2[j] == a;
        let k = choose|k: int| 0 <= k < o1.len() && o1[k] == b;
        if j < i {
            assert(o1[j] == o2[j]);
            assert(row_before(rows, o1[j], o1[i]));
        }
        if k < i {
            assert(o1[k] == o2[k]);
            assert(row_before(rows, o2[k], o2[i]));
        }
        assert(j > i && k > i);
        assert(row_before(rows, o2[i], o2[j]));
        assert(row_before(rows, o1[i], o1[k]));
    }
}

/// `rows2` is `rows1` reordered: row `i` of `rows2` is row `p[i]` of
/// `rows1`, and `p` lists every index of `rows1` once.
pub open spec fn is_reordering(rows1: Seq<MoveRow>, rows2: Seq<MoveRow>, p: Seq<int>) -> bool {
    &&& rows2.len() == rows1.len()
    &&& p.len() == rows1.len()
    &&& forall|i: int| 0 <= i < p.len() ==> 0 <= #[trigger] p[i] < rows1.len() && rows2[i] == rows1[p[i]]
    &&& forall|i: int, j: int| 0 <= i < j < p.len() ==> #[trigger] p[i] != #[trigger] p[j]
    &&& forall|x: int| 0 <= x < rows1.len() ==> #[trigger] p.contains(x)
}

/// No two rows share an id.
pub open spec fn distinct_ids(rows: Seq<MoveRow>) -> bool {
    forall|a: int, b: int| 0 <= a < b < rows.len() ==> #[trigger] rows[a].id != #[trigger] rows[b].id
}

/// The order in which rows with distinct ids are stored does not matter:
/// reordered, they give the same moves.
pub proof fn reordered_rows_give_same_moves(
    rows1: Seq<MoveRow>,
    rows2: Seq<MoveRow>,
    p: Seq<int>,
    o1: Seq<int>,
    o2: Seq<int>,
)
    requires
        is_reordering(rows1, rows2, p),
        distinct_ids(rows1),
        is_id_order(rows1, o1),
        is_id_order(rows2, o2),
    ensures
        moves_in_order(rows1, o1) == moves_in_order(rows2, o2),
{
    let q = o2.map_values(|k: int| p[k]);
    assert forall|k: int| 0 <= k < q.len() implies 0 <= #[trigger] q[k] < rows1.len() by {
        assert(0 <= o2[k] < rows2.len());
    }
    assert forall|x: int| 0 <= x < rows1.len() implies #[trigger] q.contains(x) by {
        assert(p.contains(x));
        let i = choose|i: int| 0 <= i < p.len() && p[i] == x;
        assert(o2.contains(i));
        let k = choose|k: int| 0 <= k < o2.len() && o2[k] == i;
        assert(q[k] == x);
    }
    assert forall|k: int, l: int| 0 <= k < l < q.len() implies row_before(rows1, #[trigger] q[k], #[trigger] q[l]) by {
        let a = o2[k];
        let b = o2[l];
        assert(row_before(rows2, a, b));
        assert(0 <= a < p.len() && 0 <= b < p.len());
        assert(rows2[a] == rows1[p[a]] && rows2[b] == rows1[p[b]]);
        if rows1[p[a]].id == rows1[p[b]].id {
            if p[a] < p[b] {
                assert(rows1[p[a]].id != rows1[p[b]].id);
            } else if p[b] < p[a] {
                assert(rows1[p[b]].id != rows1[p[a]].id);
            }
            assert(a < b);
            assert(p[a] != p[b]);
        }
    }
    assert(is_id_order(rows1, q));
    id_order_unique(rows1, o1, q);
    assert(moves_in_order(rows1, q) =~= moves_in_order(rows2, o2));
}

/// Why a move could not be recorded.
#[derive(Debug, Clone)]
pub enum Error {
    /// The store failed; its message.
    Db(String),
    /// The move was refused.
    Chess(chess::Error),
}

impl Error {
    /// The message of the error; this is how it prints.
    pub fn message(&self) -> (m: String)
        ensures
            m@ == match self {
                Error::Db(e) => e@,
                Error::Chess(e) => e@.1,
            },
    {
        match self {
            Error::Db(e) => e.clone(),
            Error::Chess(e) => e.message(),
        }
    }
}

impl Game {
    /// Decides a player's move `mv` in the game: `Ok` means that the move is
    /// to be recorded, an error that it is refused and why.
    pub fn turn(game: &GameResponse, mv: &String) -> (r: Result<(), Error>)
        ensures
            match chess::validation(game.moves.deep_view(), mv@) {
                Ok(_) => r is Ok,
                Err(e) => r matches Err(Error::Chess(ce)) && ce@ == e,
            },
            chess::validation(game.moves.deep_view(), mv@) matches Ok(res) && res
                != chess::MoveResult::Legal ==> chess::game_over_after(game.moves.deep_view(), mv@),
    {
        match chess::validate(game, mv) {
            Ok(_) => Ok(()),
            Err(e) => Err(Error::Chess(e)),
        }
    }
}

} // verus!
