//! The rules of play on a puzzle websocket.
//!
//! A player asks to put a tile at a place. The tile goes into place only when
//! the place is its own and it was not in place yet; the player then earns a
//! point, the puzzle's total rises by one and every client hears of it. Any
//! other request changes nothing. A client that joins gets the sizes of the
//! puzzle, the tiles as players may see them, the players and their scores.
use std::collections::HashMap;
use vstd::multiset::Multiset;
use vstd::prelude::*;

use crate::ids::{parse_uuid, spec_hyphenated, spec_parse_uuid, uuid_to_string};
use crate::message::WsMessage;
use crate::model::puzzle::{spec_new_tile_map, JigsawIndex, JigsawMeta, JigsawTile, PublicJigsawTile};
use crate::model::user::{UserData, UserId};

verus! {

broadcast use vstd::std_specs::hash::group_hash_axioms;

/// Why a request to place a tile failed.
#[derive(Copy, Clone, Debug, PartialEq, Eq, Structural)]
pub enum PlaceError {
    /// The puzzle has no tile with the id that the player named.
    NoSuchTile,
}

/// The outcome of a request to put a tile at `index`, where `stored` is what
/// the puzzle holds of that tile: the tile's new state when it goes into
/// place, nothing when the request changes nothing.
pub open spec fn spec_place(stored: Option<JigsawTile>, index: JigsawIndex) -> Result<
    Option<JigsawTile>,
    PlaceError,
> {
    match stored {
        None => Err(PlaceError::NoSuchTile),
        Some(tile) => if tile.in_place || tile.index != index {
            Ok(None)
        } else {
            Ok(Some(JigsawTile { index: tile.index, in_place: true }))
        },
    }
}

/// What follows when a tile goes into place: its new state, to be stored,
/// and the message to every client of the puzzle. The player's score and
/// the puzzle's total each rise by one.
pub struct Placement {
    pub tile: JigsawTile,
    pub message: WsMessage,
}

/// Decides a request of `user` to put the tile `tile_uuid` at `index`, where
/// `stored` is the tile as the puzzle holds it (nothing if it has no such
/// tile).
pub fn process_place(user: UserId, tile_uuid: u128, index: JigsawIndex, stored: Option<JigsawTile>) -> (r:
    Result<Option<Placement>, PlaceError>)
    ensures
        match spec_place(stored, index) {
            Err(e) => r matches Err(f) && f == e,
            Ok(None) => r matches Ok(None),
            Ok(Some(tile)) => r matches Ok(Some(p)) && p.tile == tile && p.message == (
            WsMessage::Placed { user, tile_uuid, index }),
        },
{
    match stored {
        None => Err(PlaceError::NoSuchTile),
        Some(tile) => {
            if tile.in_place || tile.index != index {
                Ok(None)
            } else {
                let placed = JigsawTile { index: tile.index, in_place: true };
                Ok(Some(Placement { tile: placed, message: WsMessage::placed(user, tile_uuid, index) }))
            }
        },
    }
}

/// The ids of the tiles of `tiles` that are in place.
pub open spec fn placed_tiles(tiles: Map<u128, JigsawTile>) -> Set<u128> {
    tiles.dom().filter(|id: u128| tiles[id].in_place)
}

/// The tiles and the total score of a puzzle after a request to put the tile
/// `tile_uuid` at `index`.
pub open spec fn after_place(
    tiles: Map<u128, JigsawTile>,
    total: int,
    tile_uuid: u128,
    index: JigsawIndex,
) -> (Map<u128, JigsawTile>, int) {
    let stored = if tiles.dom().contains(tile_uuid) {
        Some(tiles[tile_uuid])
    } else {
        None
    };
    match spec_place(stored, index) {
        Ok(Some(tile)) => (tiles.insert(tile_uuid, tile), total + 1),
        _ => (tiles, total),
    }
}

/// A request that put a tile in place changes nothing when it comes again:
/// every tile is placed, and scored, once.
pub proof fn lemma_place_idempotent(stored: Option<JigsawTile>, index: JigsawIndex)
    ensures
        spec_place(stored, index) matches Ok(Some(tile)) ==> spec_place(Some(tile), index) == Ok::<
            Option<JigsawTile>,
            PlaceError,
        >(None),
{
}

/// A tile goes into place only at its own place, and a tile in place stays
/// there: whatever is asked, the tile afterwards belongs where it did before,
/// and it is in place exactly when it was, or when it was asked for at its
/// own place.
pub proof fn lemma_place_keeps_tiles(
    tiles: Map<u128, JigsawTile>,
    total: int,
    tile_uuid: u128,
    index: JigsawIndex,
)
    ensures
        ({
            let (after, _) = after_place(tiles, total, tile_uuid, index);
            &&& after.dom() == tiles.dom()
            &&& forall|id: u128|
                #![trigger after[id]]
                tiles.dom().contains(id) ==> after[id].index == tiles[id].index && (after[id].in_place
                    <==> (tiles[id].in_place || (id == tile_uuid && index == tiles[id].index)))
        }),
{
    let (after, _) = after_place(tiles, total, tile_uuid, index);
    if tiles.dom().contains(tile_uuid) {
        assert(after.dom() =~= tiles.dom());
    }
}

/// The total score of a puzzle counts the tiles in place: where it did
/// before a request, it still does after it.
pub proof fn lemma_total_counts_placed_tiles(
    tiles: Map<u128, JigsawTile>,
    total: int,
    tile_uuid: u128,
    index: JigsawIndex,
)
    requires
        tiles.dom().finite(),
        total == placed_tiles(tiles).len(),
    ensures
        ({
            let (after, after_total) = after_place(tiles, total, tile_uuid, index);
            &&& after.dom().finite()
            &&& after_total == placed_tiles(after).len()
        }),
{
    let (after, after_total) = after_place(tiles, total, tile_uuid, index);
    let before_set = placed_tiles(tiles);
    let after_set = placed_tiles(after);
    vstd::set_lib::lemma_len_subset(before_set, tiles.dom());
    if after_total != total {
        assert(after_set =~= before_set.insert(tile_uuid));
        assert(!before_set.contains(tile_uuid));
    } else {
        assert(after == tiles);
    }
}

/// The points of a puzzle's players after a request of `user` to put the
/// tile `tile_uuid` at `index`: one point each for every tile that its
/// player put in place, so a player's score is how often it occurs and the
/// sum of all scores is the size of the multiset.
pub open spec fn points_after_place(
    tiles: Map<u128, JigsawTile>,
    points: Multiset<u64>,
    user: u64,
    tile_uuid: u128,
    index: JigsawIndex,
) -> Multiset<u64> {
    let stored = if tiles.dom().contains(tile_uuid) {
        Some(tiles[tile_uuid])
    } else {
        None
    };
    match spec_place(stored, index) {
        Ok(Some(_)) => points.insert(user),
        _ => points,
    }
}

/// The scores of all players add up to the puzzle's total, which counts the
/// tiles in place: where that holds before a request, it holds after it,
/// and only the requesting player's score rises, by the one point that the
/// total rises.
pub proof fn lemma_scores_sum_to_total(
    tiles: Map<u128, JigsawTile>,
    points: Multiset<u64>,
    total: int,
    user: u64,
    tile_uuid: u128,
    index: JigsawIndex,
)
    requires
        tiles.dom().finite(),
        total == points.len(),
        total == placed_tiles(tiles).len(),
    ensures
        ({
            let (after, after_total) = after_place(tiles, total, tile_uuid, index);
            let after_points = points_after_place(tiles, points, user, tile_uuid, index);
            &&& after_total == after_points.len()
            &&& after_total == placed_tiles(after).len()
            &&& forall|v: u64|
                #[trigger] after_points.count(v) == points.count(v) + (if v == user && after_total
                    != total {
                    1int
                } else {
                    0int
                })
        }),
{
    broadcast use vstd::multiset::group_multiset_axioms;

    lemma_total_counts_placed_tiles(tiles, total, tile_uuid, index);
}

/// A new puzzle has no tile in place, so a total score of zero counts its
/// placed tiles; `lemma_total_counts_placed_tiles` keeps that true from then
/// on.
pub proof fn lemma_new_puzzle_has_nothing_placed(tiles: Seq<(u128, JigsawIndex)>)
    ensures
        spec_new_tile_map(tiles).dom().finite(),
        placed_tiles(spec_new_tile_map(tiles)).len() == 0,
    decreases tiles.len(),
{
    let m = spec_new_tile_map(tiles);
    if tiles.len() > 0 {
        lemma_new_puzzle_has_nothing_placed(tiles.drop_last());
        let before = spec_new_tile_map(tiles.drop_last());
        assert(placed_tiles(before) =~= Set::<u128>::empty()) by {
            vstd::set_lib::lemma_set_empty_equivalency_len(placed_tiles(before));
            vstd::set_lib::lemma_len_subset(placed_tiles(before), before.dom());
        }
    }
    assert(placed_tiles(m) =~= Set::<u128>::empty());
}

/// Why the state of a puzzle could not be sent to a client that joins.
#[derive(Copy, Clone, Debug, PartialEq, Eq, Structural)]
pub enum InitialDataError {
    /// The puzzle has no tiles: there is no puzzle with that id.
    NoSuchPuzzle,
    /// A tile is stored under a key that is not a UUID.
    InvalidTileId,
}

/// The tiles of a puzzle as players may see them, keyed by tile id: a later
/// entry for the same id replaces an earlier one.
pub open spec fn public_state_map(tiles: Seq<(u128, JigsawTile)>) -> Map<u128, PublicJigsawTile>
    decreases tiles.len(),
{
    if tiles.len() == 0 {
        Map::empty()
    } else {
        public_state_map(tiles.drop_last()).insert(
            tiles.last().0,
            PublicJigsawTile(
                if tiles.last().1.in_place {
                    Some(tiles.last().1.index)
                } else {
                    None
                },
            ),
        )
    }
}

/// The scores of the players by player id: a later entry for the same
/// player replaces an earlier one.
pub open spec fn score_map(scores: Seq<(u64, u64)>) -> Map<u64, u64>
    decreases scores.len(),
{
    if scores.len() == 0 {
        Map::empty()
    } else {
        score_map(scores.drop_last()).insert(scores.last().0, scores.last().1)
    }
}

/// The first `n` players of `scores` with their data, the `i`-th player's
/// data being `users[i]`.
pub open spec fn user_map_prefix(scores: Seq<(u64, u64)>, users: Seq<UserData>, n: int) -> Map<
    u64,
    UserData,
>
    decreases n,
{
    if n <= 0 {
        Map::empty()
    } else {
        user_map_prefix(scores, users, n - 1).insert(scores[n - 1].0, users[n - 1])
    }
}

/// The players of `scores` paired in order with their data in `users`, as
/// far as both go.
pub open spec fn user_map(scores: Seq<(u64, u64)>, users: Seq<UserData>) -> Map<u64, UserData> {
    user_map_prefix(
        scores,
        users,
        if scores.len() <= users.len() {
            scores.len() as int
        } else {
            users.len() as int
        },
    )
}

/// Builds the message for a client that joins a puzzle from what the puzzle
/// holds: its sizes, its tiles by tile id, the scores of its players in
/// order, and the data of those players in the same order.
pub fn initial_message_from_ids(
    meta: JigsawMeta,
    tiles: &Vec<(u128, JigsawTile)>,
    scores: &Vec<(u64, u64)>,
    users: &Vec<UserData>,
) -> (r: Result<WsMessage, InitialDataError>)
    ensures
        tiles.len() == 0 ==> r matches Err(InitialDataError::NoSuchPuzzle),
        tiles.len() > 0 ==> (r matches Ok(WsMessage::Initial { meta: m, state, users: u, scores: s })
            && m == meta && state@ == public_state_map(tiles@) && u@ == user_map(scores@, users@)
            && s@ == score_map(scores@)),
{
    if tiles.len() == 0 {
        return Err(InitialDataError::NoSuchPuzzle);
    }
    let mut state: HashMap<u128, PublicJigsawTile> = HashMap::new();
    let mut i: usize = 0;
    while i < tiles.len()
        invariant
            i <= tiles.len(),
            state@ == public_state_map(tiles@.subrange(0, i as int)),
        decreases tiles.len() - i,
    {
        let (id, tile) = tiles[i];
        state.insert(id, PublicJigsawTile::from(tile));
        assert(tiles@.subrange(0, i + 1).drop_last() =~= tiles@.subrange(0, i as int));
        i = i + 1;
    }
    assert(tiles@.subrange(0, tiles.len() as int) =~= tiles@);
    let mut score_state: HashMap<u64, u64> = HashMap::new();
    let mut j: usize = 0;
    while j < scores.len()
        invariant
            j <= scores.len(),
            score_state@ == score_map(scores@.subrange(0, j as int)),
        decreases scores.len() - j,
    {
        let (id, score) = scores[j];
        score_state.insert(id, score);
        assert(scores@.subrange(0, j + 1).drop_last() =~= scores@.subrange(0, j as int));
        j = j + 1;
    }
    assert(scores@.subrange(0, scores.len() as int) =~= scores@);
    let n: usize = if scores.len() <= users.len() {
        scores.len()
    } else {
        users.len()
    };
    let mut user_state: HashMap<u64, UserData> = HashMap::new();
    let mut k: usize = 0;
    while k < n
        invariant
            k <= n,
            n <= scores.len(),
            n <= users.len(),
            user_state@ == user_map_prefix(scores@, users@, k as int),
        decreases n - k,
    {
        let (id, _) = scores[k];
        user_state.insert(id, users[k].clone());
        k = k + 1;
    }
    Ok(WsMessage::initial(meta, state, user_state, score_state))
}

/// The tiles of `tiles` with their keys read as UUIDs, or nothing when a key
/// is not one.
pub open spec fn parsed_tiles(tiles: Seq<(Seq<char>, JigsawTile)>) -> Option<
    Seq<(u128, JigsawTile)>,
> {
    if forall|i: int| 0 <= i < tiles.len() ==> (#[trigger] spec_parse_uuid(tiles[i].0)) is Some {
        Some(Seq::new(tiles.len(), |i: int| (spec_parse_uuid(tiles[i].0).unwrap(), tiles[i].1)))
    } else {
        None
    }
}

/// The tiles of a puzzle as the puzzle stores them: the text of each tile's
/// id, and the tile.
pub open spec fn stored_tiles_view(tiles: Seq<(String, JigsawTile)>) -> Seq<(Seq<char>, JigsawTile)> {
    Seq::new(tiles.len(), |i: int| (tiles[i].0@, tiles[i].1))
}

/// The tiles `tiles` are stored under the text of the ids `ids`, in order.
pub open spec fn stored_under(tiles: Seq<(String, JigsawTile)>, ids: Seq<u128>) -> bool {
    &&& ids.len() == tiles.len()
    &&& forall|i: int| 0 <= i < ids.len() ==> #[trigger] tiles[i].0@ == spec_hyphenated(ids[i])
}

/// The tiles of `tiles` with the ids `ids` in place of their keys.
pub open spec fn with_ids(tiles: Seq<(String, JigsawTile)>, ids: Seq<u128>) -> Seq<(u128, JigsawTile)> {
    Seq::new(tiles.len(), |i: int| (ids[i], tiles[i].1))
}

/// The fields under which the tiles of a puzzle are stored: the text of
/// each tile's id, with the tile.
pub fn stored_tile_fields(tiles: &Vec<(u128, JigsawTile)>) -> (r: Vec<(String, JigsawTile)>)
    ensures
        r.len() == tiles.len(),
        forall|i: int|
            0 <= i < tiles.len() ==> #[trigger] r@[i].0@ == spec_hyphenated(tiles@[i].0) && r@[i].1
                == tiles@[i].1,
{
    let mut fields: Vec<(String, JigsawTile)> = Vec::new();
    let mut i: usize = 0;
    while i < tiles.len()
        invariant
            i <= tiles.len(),
            fields.len() == i,
            forall|j: int|
                0 <= j < i ==> #[trigger] fields@[j].0@ == spec_hyphenated(tiles@[j].0) && fields@[j].1
                    == tiles@[j].1,
        decreases tiles.len() - i,
    {
        let (id, tile) = tiles[i];
        fields.push((uuid_to_string(id), tile));
        i = i + 1;
    }
    fields
}

/// Builds the message for a client that joins a puzzle whose tiles are
/// stored under the text of their ids. Tiles stored under the text that
/// `stored_tile_fields` writes for their ids come back with those ids.
pub fn initial_message(
    meta: JigsawMeta,
    tiles: &Vec<(String, JigsawTile)>,
    scores: &Vec<(u64, u64)>,
    users: &Vec<UserData>,
) -> (r: Result<WsMessage, InitialDataError>)
    ensures
        tiles.len() == 0 ==> r matches Err(InitialDataError::NoSuchPuzzle),
        tiles.len() > 0 ==> match parsed_tiles(stored_tiles_view(tiles@)) {
            None => r matches Err(InitialDataError::InvalidTileId),
            Some(parsed) => (r matches Ok(WsMessage::Initial { meta: m, state, users: u, scores: s })
                && m == meta && state@ == public_state_map(parsed) && u@ == user_map(
                scores@,
                users@,
            ) && s@ == score_map(scores@)),
        },
        forall|ids: Seq<u128>|
            #![trigger stored_under(tiles@, ids)]
            stored_under(tiles@, ids) ==> parsed_tiles(stored_tiles_view(tiles@)) == Some(
                with_ids(tiles@, ids),
            ),
{
    if tiles.len() == 0 {
        return Err(InitialDataError::NoSuchPuzzle);
    }
    let ghost view = stored_tiles_view(tiles@);
    let mut parsed: Vec<(u128, JigsawTile)> = Vec::new();
    let mut i: usize = 0;
    while i < tiles.len()
        invariant
            i <= tiles.len(),
            view == stored_tiles_view(tiles@),
            parsed.len() == i,
            forall|j: int|
                0 <= j < i ==> (#[trigger] spec_parse_uuid(view[j].0)) is Some && parsed@[j] == (
                spec_parse_uuid(view[j].0).unwrap(),
                view[j].1,
            ),
            forall|j: int, id: u128|
                0 <= j < i && #[trigger] spec_hyphenated(id) == view[j].0 ==> #[trigger] spec_parse_uuid(
                    view[j].0,
                ) == Some(id),
        decreases tiles.len() - i,
    {
        let id = parse_uuid(tiles[i].0.as_str());
        match id {
            None => {
                assert(spec_parse_uuid(view[i as int].0) is None);
                return Err(InitialDataError::InvalidTileId);
            },
            Some(id) => {
                parsed.push((id, tiles[i].1));
            },
        }
        i = i + 1;
    }
    proof {
        let p = parsed_tiles(view);
        assert(p is Some);
        assert(p.unwrap() =~= parsed@);
        assert forall|ids: Seq<u128>| #[trigger] stored_under(tiles@, ids) implies p == Some(
            with_ids(tiles@, ids),
        ) by {
            assert forall|j: int| 0 <= j < tiles.len() implies p.unwrap()[j] == #[trigger] with_ids(
                tiles@,
                ids,
            )[j] by {
                assert(spec_hyphenated(ids[j]) == view[j].0);
            }
            assert(p.unwrap() =~= with_ids(tiles@, ids));
        }
    }
    initial_message_from_ids(meta, &parsed, scores, users)
}

} // verus!
