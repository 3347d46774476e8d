use jigsaw::message::WsMessage;
use jigsaw::model::puzzle::{JigsawIndex, JigsawMeta, JigsawTile, PublicJigsawTile};
use jigsaw::model::user::{UserData, UserId};
use jigsaw::play::{
    initial_message, initial_message_from_ids, process_place, stored_tile_fields, InitialDataError,
    PlaceError,
};

const TILE: u128 = 0x550e8400e29b41d4a716446655440000;

fn tile(x: u32, y: u32, in_place: bool) -> JigsawTile {
    JigsawTile { index: JigsawIndex::new(x, y), in_place }
}

fn meta() -> JigsawMeta {
    JigsawMeta::new(240, (1920, 1440))
}

#[test]
fn placing_an_unknown_tile_fails() {
    let r = process_place(UserId(7), TILE, JigsawIndex::new(1, 2), None);
    assert!(matches!(r, Err(PlaceError::NoSuchTile)));
}

#[test]
fn placing_at_the_wrong_place_changes_nothing() {
    let r = process_place(UserId(7), TILE, JigsawIndex::new(2, 1), Some(tile(1, 2, false)));
    assert!(matches!(r, Ok(None)));
}

#[test]
fn placing_a_placed_tile_changes_nothing() {
    let r = process_place(UserId(7), TILE, JigsawIndex::new(1, 2), Some(tile(1, 2, true)));
    assert!(matches!(r, Ok(None)));
}

#[test]
fn placing_at_the_right_place_puts_the_tile_in_place() {
    let r = process_place(UserId(7), TILE, JigsawIndex::new(1, 2), Some(tile(1, 2, false)));
    match r {
        Ok(Some(p)) => {
            assert_eq!(p.tile, tile(1, 2, true));
            match p.message {
                WsMessage::Placed { user, tile_uuid, index } => {
                    assert_eq!(user, UserId(7));
                    assert_eq!(tile_uuid, TILE);
                    assert_eq!(index, JigsawIndex::new(1, 2));
                }
                _ => panic!("the clients must hear of the placement"),
            }
        }
        _ => panic!("the tile must go into place"),
    }
}

#[test]
fn placing_twice_scores_once() {
    let first = process_place(UserId(7), TILE, JigsawIndex::new(3, 0), Some(tile(3, 0, false)));
    let stored = match first {
        Ok(Some(p)) => p.tile,
        _ => panic!("the first request places the tile"),
    };
    let second = process_place(UserId(8), TILE, JigsawIndex::new(3, 0), Some(stored));
    assert!(matches!(second, Ok(None)));
}

#[test]
fn a_puzzle_without_tiles_is_no_puzzle() {
    let r = initial_message_from_ids(meta(), &vec![], &vec![(1, 0)], &vec![]);
    assert!(matches!(r, Err(InitialDataError::NoSuchPuzzle)));
    let r = initial_message(meta(), &vec![], &vec![], &vec![]);
    assert!(matches!(r, Err(InitialDataError::NoSuchPuzzle)));
}

#[test]
fn initial_message_hides_tiles_not_in_place() {
    let tiles = vec![(1u128, tile(0, 0, true)), (2u128, tile(1, 0, false)), (1u128, tile(0, 0, false))];
    let scores = vec![(10u64, 3u64), (11u64, 0u64), (12u64, 5u64)];
    let users = vec![UserData::new("Ann".to_string()), UserData::new("Bob".to_string())];
    match initial_message_from_ids(meta(), &tiles, &scores, &users) {
        Ok(WsMessage::Initial { meta: m, state, users: u, scores: s }) => {
            assert_eq!(m.tile_size_px, 240);
            assert_eq!(m.image_dimensions_px, (1920, 1440));
            assert_eq!(state.len(), 2);
            // a later entry for the same tile replaces an earlier one
            assert_eq!(state[&1], PublicJigsawTile(None));
            assert_eq!(state[&2], PublicJigsawTile(None));
            // players and their data are paired as far as both go
            assert_eq!(u.len(), 2);
            assert_eq!(u[&10].name, "Ann");
            assert_eq!(u[&11].name, "Bob");
            assert_eq!(s.len(), 3);
            assert_eq!(s[&10], 3);
            assert_eq!(s[&11], 0);
            assert_eq!(s[&12], 5);
        }
        _ => panic!("a puzzle with tiles has an initial message"),
    }
}

#[test]
fn initial_message_reveals_placed_tiles() {
    let tiles = vec![(5u128, tile(2, 3, true))];
    match initial_message_from_ids(meta(), &tiles, &vec![], &vec![]) {
        Ok(WsMessage::Initial { state, users, scores, .. }) => {
            assert_eq!(state[&5], PublicJigsawTile(Some(JigsawIndex::new(2, 3))));
            assert!(users.is_empty());
            assert!(scores.is_empty());
        }
        _ => panic!("a puzzle with tiles has an initial message"),
    }
}

#[test]
fn initial_message_reads_tile_ids_from_their_text() {
    let tiles = vec![
        ("550e8400-e29b-41d4-a716-446655440000".to_string(), tile(0, 1, true)),
        ("550E8400-E29B-41D4-A716-446655440001".to_string(), tile(1, 1, false)),
    ];
    match initial_message(meta(), &tiles, &vec![(1, 1)], &vec![UserData::new("Cy".to_string())]) {
        Ok(WsMessage::Initial { state, users, scores, .. }) => {
            assert_eq!(state.len(), 2);
            assert_eq!(state[&TILE], PublicJigsawTile(Some(JigsawIndex::new(0, 1))));
            assert_eq!(state[&(TILE + 1)], PublicJigsawTile(None));
            assert_eq!(users[&1].name, "Cy");
            assert_eq!(scores[&1], 1);
        }
        _ => panic!("tile ids in text must be read"),
    }
}

#[test]
fn initial_message_refuses_a_tile_key_that_is_no_uuid() {
    let tiles = vec![
        ("550e8400-e29b-41d4-a716-446655440000".to_string(), tile(0, 1, true)),
        ("tile-1".to_string(), tile(1, 1, false)),
    ];
    let r = initial_message(meta(), &tiles, &vec![], &vec![]);
    assert!(matches!(r, Err(InitialDataError::InvalidTileId)));
}

#[test]
fn stored_tiles_come_back_with_their_ids() {
    let tiles = vec![(TILE, tile(0, 0, false)), (7u128, tile(1, 0, true))];
    let fields = stored_tile_fields(&tiles);
    assert_eq!(fields[0].0, "550e8400-e29b-41d4-a716-446655440000");
    assert_eq!(fields[1].0, "00000000-0000-0000-0000-000000000007");
    assert_eq!(fields[1].1, tile(1, 0, true));
    let from_text = initial_message(meta(), &fields, &vec![], &vec![]);
    let from_ids = initial_message_from_ids(meta(), &tiles, &vec![], &vec![]);
    match (from_text, from_ids) {
        (Ok(WsMessage::Initial { state: a, .. }), Ok(WsMessage::Initial { state: b, .. })) => {
            assert_eq!(a, b);
            assert_eq!(a[&7], PublicJigsawTile(Some(JigsawIndex::new(1, 0))));
        }
        _ => panic!("stored tiles make a puzzle"),
    }
}

#[test]
fn total_score_counts_the_tiles_in_place() {
    let mut tiles: std::collections::HashMap<u128, JigsawTile> =
        (0..4u32).map(|i| (i as u128, tile(i, 0, false))).collect();
    let mut total = 0u64;
    let mut scores: std::collections::HashMap<u64, u64> = std::collections::HashMap::new();
    let requests = [(0u128, (0, 0), 1u64), (1, (2, 0), 2), (1, (1, 0), 2), (0, (0, 0), 2), (9, (0, 0), 1), (3, (3, 0), 1)];
    for (id, (x, y), player) in requests {
        match process_place(UserId(player), id, JigsawIndex::new(x, y), tiles.get(&id).copied()) {
            Ok(Some(p)) => {
                tiles.insert(id, p.tile);
                total += 1;
                *scores.entry(player).or_insert(0) += 1;
            }
            Ok(None) => {}
            Err(PlaceError::NoSuchTile) => assert_eq!(id, 9),
        }
        let placed = tiles.values().filter(|t| t.in_place).count() as u64;
        assert_eq!(total, placed);
        assert_eq!(scores.values().sum::<u64>(), total);
        for (k, t) in &tiles {
            assert_eq!(t.index, JigsawIndex::new(*k as u32, 0));
        }
    }
    assert_eq!(total, 3);
    assert_eq!(scores[&1], 2);
    assert_eq!(scores[&2], 1);
}
