use jigsaw::message::WsMessage;
use jigsaw::model::puzzle::{JigsawIndex, JigsawMeta, JigsawPuzzle, JigsawTile, PublicJigsawTile};
use jigsaw::model::request::PuzzleGeneratedEvent;
use jigsaw::model::user::{TelegramUser, User, UserData, UserId};
use jigsaw::redis_scheme::RedisScheme;
use jigsaw::util::{report_text, Indexed, NamedInstant};

const ID: u128 = 0x550e8400e29b41d4a716446655440000;

#[test]
fn test_user_plays_as_user_zero() {
    let u = User::test();
    assert_eq!(u.0, UserId(0));
    assert_eq!(u.1.name, "User");
}

#[test]
fn user_data_holds_the_name() {
    assert_eq!(UserData::new("Ann".to_string()).name, "Ann");
}

#[test]
fn telegram_user_plays_under_id_and_first_name() {
    let t = TelegramUser {
        id: 42,
        first_name: "Ann".to_string(),
        last_name: Some("Lee".to_string()),
        username: None,
        photo_url: None,
    };
    let u = User::from(t);
    assert_eq!(u.0, UserId(42));
    assert_eq!(u.1.name, "Ann");
    let copy = u.clone();
    assert_eq!(copy.0, UserId(42));
    assert_eq!(copy.1.name, "Ann");
}

#[test]
fn new_tiles_are_not_in_place_and_hidden() {
    let t = JigsawTile::from(JigsawIndex::new(3, 4));
    assert_eq!(t, JigsawTile { index: JigsawIndex { x: 3, y: 4 }, in_place: false });
    assert_eq!(PublicJigsawTile::from(t), PublicJigsawTile(None));
    let placed = JigsawTile { index: JigsawIndex::new(3, 4), in_place: true };
    assert_eq!(PublicJigsawTile::from(placed), PublicJigsawTile(Some(JigsawIndex::new(3, 4))));
}

#[test]
fn meta_holds_sizes() {
    let m = JigsawMeta::new(240, (1920, 1440));
    assert_eq!(m.tile_size_px, 240);
    assert_eq!(m.image_dimensions_px, (1920, 1440));
}

#[test]
fn puzzle_from_indexed_tiles() {
    let tiles = vec![(1u128, JigsawIndex::new(0, 0)), (2u128, JigsawIndex::new(1, 0)), (1u128, JigsawIndex::new(2, 0))];
    let p = JigsawPuzzle::from_indexed_tiles(ID, &tiles, JigsawMeta::new(240, (720, 240)));
    assert_eq!(p.uuid, ID);
    assert_eq!(p.tile_map.len(), 2);
    assert_eq!(p.tile_map[&1], JigsawTile { index: JigsawIndex::new(2, 0), in_place: false });
    assert_eq!(p.tile_map[&2], JigsawTile { index: JigsawIndex::new(1, 0), in_place: false });
    assert_eq!(p.meta.image_dimensions_px, (720, 240));
    let q = JigsawPuzzle::new(ID, p.tile_map.clone(), p.meta);
    assert_eq!(q.tile_map, p.tile_map);
}

#[test]
fn redis_keys() {
    let id = "550e8400-e29b-41d4-a716-446655440000";
    assert_eq!(RedisScheme::jigsaw_puzzle_state(ID), format!("jigsaw_puzzle_state:{id}"));
    assert_eq!(RedisScheme::jigsaw_puzzle_meta(ID), format!("jigsaw_puzzle_meta:{id}"));
    assert_eq!(RedisScheme::request_message_data(ID), format!("request_message_data:{id}"));
    assert_eq!(RedisScheme::jigsaw_puzzle_score(ID), format!("jigsaw_puzzle_score:{id}"));
    assert_eq!(RedisScheme::jigsaw_puzzle_score_total(ID), format!("jigsaw_puzzle_score_total:{id}"));
    assert_eq!(RedisScheme::jigsaw_puzzle_state(0), "jigsaw_puzzle_state:00000000-0000-0000-0000-000000000000");
    assert_eq!(RedisScheme::JIGSAW_USER_DATA, "jigsaw_user_data");
    assert_eq!(RedisScheme::REQUEST_GENERATE_PUZZLE, "request:generate_puzzle");
    assert_eq!(RedisScheme::EVENT_PUZZLE_GENERATED, "event:puzzle_generated");
}

#[test]
fn indexed_values_get_random_ids() {
    let a = Indexed::from_value("picture");
    let b = Indexed::from_value("picture");
    assert_eq!(a.value, "picture");
    assert_ne!(a.id, b.id);
    for id in [a.id, b.id] {
        assert_eq!((id >> 76) & 0xf, 4);
        assert_eq!((id >> 62) & 0x3, 2);
    }
}

#[test]
fn stopwatch_reports_its_name() {
    let n = NamedInstant::now("generate".to_string());
    let line = n.report_in_ms();
    assert!(line.starts_with("'generate' took "));
    assert!(line.ends_with(" ms"));
    let digits = &line["'generate' took ".len()..line.len() - 3];
    assert!(!digits.is_empty() && digits.chars().all(|c| c.is_ascii_digit()));
}

#[test]
fn report_line() {
    assert_eq!(report_text("load", 42), "'load' took 42 ms");
    assert_eq!(report_text("", 0), "'' took 0 ms");
    assert_eq!(
        report_text("x", u128::MAX),
        "'x' took 340282366920938463463374607431768211455 ms"
    );
}

#[test]
fn generated_event() {
    let e = PuzzleGeneratedEvent::new(1, Some(2));
    assert_eq!(e.request_uuid, 1);
    assert_eq!(e.puzzle_uuid, Some(2));
    assert_eq!(PuzzleGeneratedEvent::new(3, None).puzzle_uuid, None);
}

#[test]
fn message_constructors() {
    assert!(matches!(
        WsMessage::placed(UserId(1), 2, JigsawIndex::new(3, 4)),
        WsMessage::Placed { user: UserId(1), tile_uuid: 2, index: JigsawIndex { x: 3, y: 4 } }
    ));
    assert!(matches!(WsMessage::leave(UserId(5)), WsMessage::Leave { user: UserId(5) }));
    match WsMessage::join(User::test()) {
        WsMessage::Join { user } => assert_eq!(user.0, UserId(0)),
        _ => panic!("a join message"),
    }
    let m = WsMessage::initial(
        JigsawMeta::new(240, (240, 240)),
        std::collections::HashMap::new(),
        std::collections::HashMap::new(),
        std::collections::HashMap::from([(1u64, 2u64)]),
    );
    match m {
        WsMessage::Initial { scores, .. } => assert_eq!(scores[&1], 2),
        _ => panic!("an initial message"),
    }
}

#[test]
fn different_puzzles_get_different_keys() {
    let ids = [0u128, 1, ID, u128::MAX, 1 << 100];
    for a in ids {
        for b in ids {
            assert_eq!(RedisScheme::jigsaw_puzzle_state(a) == RedisScheme::jigsaw_puzzle_state(b), a == b);
            assert_eq!(RedisScheme::request_message_data(a) == RedisScheme::request_message_data(b), a == b);
        }
    }
}
