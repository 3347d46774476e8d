use jigsaw::bot::{
    inline_puzzle_id, inline_share, message_action, plan_generation, reply_to_generated, Command,
    Config, EventReply, MessageAction, DONE_TEXT, FAILED_TEXT, GENERATING_TEXT, HELP_TEXT,
    REQUEST_DATA_TTL_SECS, START_TEXT,
};
use jigsaw::model::puzzle::JigsawMeta;
use jigsaw::model::request::PuzzleGeneratedEvent;

const PUZZLE: u128 = 0x550e8400e29b41d4a716446655440000;
const PUZZLE_TEXT: &str = "550e8400-e29b-41d4-a716-446655440000";

fn config(web_app_url: &str) -> Config {
    Config {
        web_app_url: web_app_url.to_string(),
        bot_name: "jigsawpuzzlebot".to_string(),
        web_app_name: "play".to_string(),
        redis_url: "redis://127.0.0.1/".to_string(),
        request_storage_path: "/srv/requests".to_string(),
    }
}

#[test]
fn commands_and_other_messages_get_their_answers() {
    assert_eq!(Command::Start.reply(), START_TEXT);
    assert_eq!(Command::Help.reply(), HELP_TEXT);
    assert!(START_TEXT.starts_with("Welcome to the Jigsaw Puzzle bot!"));
    assert!(matches!(message_action(true, Some(Command::Start)), MessageAction::GeneratePuzzle));
    assert!(matches!(message_action(true, None), MessageAction::GeneratePuzzle));
    match message_action(false, Some(Command::Start)) {
        MessageAction::Reply(text) => assert_eq!(text, START_TEXT),
        _ => panic!("/start gets the welcome"),
    }
    match message_action(false, Some(Command::Help)) {
        MessageAction::Reply(text) => assert_eq!(text, HELP_TEXT),
        _ => panic!("/help gets the help"),
    }
    match message_action(false, None) {
        MessageAction::Reply(text) => assert_eq!(text, HELP_TEXT),
        _ => panic!("anything else gets the help"),
    }
}

#[test]
fn puzzle_link_opens_the_mini_app() {
    let c = config("https://jigsaw.example.com/");
    let expected = format!("https://t.me/jigsawpuzzlebot/play?startapp={PUZZLE_TEXT}");
    assert_eq!(c.puzzle_url_text(PUZZLE), expected);
    assert_eq!(c.get_puzzle_url(PUZZLE), Some(expected));
}

#[test]
fn puzzle_link_percent_encodes_names() {
    let mut c = config("https://jigsaw.example.com/");
    c.bot_name = "bad host".to_string();
    c.web_app_name = "x".to_string();
    // "https://t.me/bad host/..." is still a URL: the space is percent-encoded
    assert_eq!(
        c.get_puzzle_url(PUZZLE),
        Some(format!("https://t.me/bad%20host/x?startapp={PUZZLE_TEXT}"))
    );
}

#[test]
fn preview_link_points_into_the_assets() {
    let c = config("https://jigsaw.example.com/");
    assert_eq!(
        c.get_puzzle_preview_url(PUZZLE),
        Some(format!("https://jigsaw.example.com/assets/{PUZZLE_TEXT}/preview.jpeg"))
    );
    let nested = config("https://jigsaw.example.com/app");
    assert_eq!(
        nested.get_puzzle_preview_url(PUZZLE),
        Some(format!("https://jigsaw.example.com/app/assets/{PUZZLE_TEXT}/preview.jpeg"))
    );
    let no_base = config("mailto:someone@example.com");
    assert_eq!(no_base.get_puzzle_preview_url(PUZZLE), None);
    let no_url = config("not a url");
    assert_eq!(no_url.get_puzzle_preview_url(PUZZLE), None);
}

#[test]
fn a_picture_becomes_a_generation_request() {
    let c = config("https://jigsaw.example.com/");
    let plan = plan_generation(&c, "photos/file_12.jpg").expect("the path has a file name");
    assert_eq!(plan.download_path, "/srv/requests/file_12.jpg");
    assert_eq!(plan.request.image_path, "file_12.jpg");
    assert_eq!((plan.request.uuid >> 76) & 0xf, 4);
    assert_eq!((plan.request.uuid >> 62) & 0x3, 2);
    let id = uuid::Uuid::from_u128(plan.request.uuid).to_string();
    assert_eq!(plan.data_key, format!("request_message_data:{id}"));
    assert_eq!(plan.data_ttl_secs, REQUEST_DATA_TTL_SECS);
    assert_eq!(plan.data_ttl_secs, 60);
    assert_eq!(plan.reply, GENERATING_TEXT);
    assert_eq!(plan.reply, "Generating puzzle...");
}

#[test]
fn requests_get_new_ids() {
    let c = config("https://jigsaw.example.com/");
    let a = plan_generation(&c, "photos/a.jpg").unwrap();
    let b = plan_generation(&c, "photos/a.jpg").unwrap();
    assert_ne!(a.request.uuid, b.request.uuid);
}

#[test]
fn a_path_without_file_name_gives_no_request() {
    let c = config("https://jigsaw.example.com/");
    assert!(plan_generation(&c, "photos/..").is_none());
    assert!(plan_generation(&c, "/").is_none());
    assert!(plan_generation(&c, "").is_none());
    let trailing = plan_generation(&c, "photos/file.jpg/").unwrap();
    assert_eq!(trailing.request.image_path, "file.jpg");
}

#[test]
fn failed_generation_is_reported() {
    let c = config("https://jigsaw.example.com/");
    match reply_to_generated(&c, PuzzleGeneratedEvent::new(1, None)) {
        Some(EventReply::Failed { text }) => {
            assert_eq!(text, FAILED_TEXT);
            assert!(text.starts_with("Failed to create a puzzle."));
        }
        _ => panic!("a failure must be reported"),
    }
}

#[test]
fn finished_puzzle_is_offered() {
    let c = config("https://jigsaw.example.com/");
    match reply_to_generated(&c, PuzzleGeneratedEvent::new(1, Some(PUZZLE))) {
        Some(EventReply::Done { text, share_query, play_url }) => {
            assert_eq!(text, DONE_TEXT);
            assert_eq!(share_query, PUZZLE_TEXT);
            assert_eq!(play_url, format!("https://t.me/jigsawpuzzlebot/play?startapp={PUZZLE_TEXT}"));
        }
        _ => panic!("a new puzzle must be offered"),
    }
}

#[test]
fn inline_query_names_a_puzzle() {
    assert_eq!(inline_puzzle_id(PUZZLE_TEXT), Some(PUZZLE));
    assert_eq!(inline_puzzle_id("550E8400-E29B-41D4-A716-446655440000"), Some(PUZZLE));
    assert_eq!(inline_puzzle_id("550e8400e29b41d4a716446655440000"), Some(PUZZLE));
    assert_eq!(inline_puzzle_id("my puzzle"), None);
    assert_eq!(inline_puzzle_id(""), None);
}

#[test]
fn inline_answer_shares_the_puzzle() {
    let c = config("https://jigsaw.example.com/");
    let share = inline_share(&c, PUZZLE, JigsawMeta::new(240, (1920, 1440))).unwrap();
    assert_eq!(share.play_url, format!("https://t.me/jigsawpuzzlebot/play?startapp={PUZZLE_TEXT}"));
    assert_eq!(
        share.preview_url,
        format!("https://jigsaw.example.com/assets/{PUZZLE_TEXT}/preview.jpeg")
    );
    assert_eq!(share.photo_width, 1920);
    assert_eq!(share.photo_height, 1440);
    let huge = inline_share(&c, PUZZLE, JigsawMeta::new(240, (3_000_000_000, 1))).unwrap();
    assert_eq!(huge.photo_width, 3_000_000_000u32 as i32);
    let no_base = config("mailto:someone@example.com");
    assert!(inline_share(&no_base, PUZZLE, JigsawMeta::new(240, (1920, 1440))).is_none());
}
