use jigsaw::channels::{ChannelRegistry, CHANNEL_CAPACITY};
use jigsaw::message::WsRequest;
use jigsaw::model::puzzle::JigsawIndex;
use jigsaw::model::request::GeneratePuzzleRequest;
use jigsaw::paths::{file_name, join_path};
use jigsaw::server::{ReportResposnse, INTERNAL_SERVER_ERROR};
use jigsaw::session::{next_step, request_action, RequestAction, SessionStep, StepOutcome};
use jigsaw::storage::{Config, JigsawFsImageStorage};

const PUZZLE: u128 = 0x550e8400e29b41d4a716446655440000;
const PUZZLE_TEXT: &str = "550e8400-e29b-41d4-a716-446655440000";

#[test]
fn joining_paths_like_pathbuf_push() {
    assert_eq!(join_path("a", "b"), "a/b");
    assert_eq!(join_path("a/", "b"), "a/b");
    assert_eq!(join_path("", "b"), "b");
    assert_eq!(join_path("a", "/b"), "/b");
    assert_eq!(join_path("a", ""), "a/");
    for (base, part) in [("a", "b"), ("a/", "b"), ("", "b"), ("a", "/b"), ("/srv/x", "y.webp")] {
        let mut p = std::path::PathBuf::from(base);
        p.push(part);
        assert_eq!(join_path(base, part), p.to_str().unwrap(), "{base} + {part}");
    }
}

#[test]
fn file_names_like_path_file_name() {
    let cases = [
        "a/b.txt", "foo.txt/.", "foo.txt/.//", "foo.txt/..", "/", "", ".", "./a", "a//b", "..",
        "photos/file_12.jpg", "/abs/x", "x/./.", "a/../b",
    ];
    for case in cases {
        let expected = std::path::Path::new(case)
            .file_name()
            .map(|n| n.to_str().unwrap().to_string());
        assert_eq!(file_name(case), expected, "{case}");
    }
    assert_eq!(file_name("foo.txt/."), Some("foo.txt".to_string()));
    assert_eq!(file_name("foo.txt/.."), None);
}

#[test]
fn image_files_of_a_puzzle() {
    let storage = JigsawFsImageStorage::new("/srv/complete".to_string());
    assert_eq!(storage.puzzle_dir(PUZZLE), format!("/srv/complete/{PUZZLE_TEXT}"));
    assert_eq!(storage.source_path(PUZZLE), format!("/srv/complete/{PUZZLE_TEXT}/source.webp"));
    assert_eq!(storage.preview_path(PUZZLE), format!("/srv/complete/{PUZZLE_TEXT}/preview.jpeg"));
    assert_eq!(
        storage.tile_path(PUZZLE, 1),
        format!("/srv/complete/{PUZZLE_TEXT}/00000000-0000-0000-0000-000000000001.webp")
    );
    let plan = storage.store_plan(PUZZLE, &vec![1, 2]);
    assert_eq!(plan.dir, format!("/srv/complete/{PUZZLE_TEXT}"));
    assert_eq!(plan.source_path, storage.source_path(PUZZLE));
    assert_eq!(plan.preview_path, storage.preview_path(PUZZLE));
    assert_eq!(plan.tile_paths, vec![storage.tile_path(PUZZLE, 1), storage.tile_path(PUZZLE, 2)]);
    let relative = JigsawFsImageStorage::new("complete/".to_string());
    assert_eq!(relative.preview_path(PUZZLE), format!("complete/{PUZZLE_TEXT}/preview.jpeg"));
}

#[test]
fn generator_reads_requests_from_its_storage() {
    let config = Config {
        redis_url: "redis://127.0.0.1/".to_string(),
        complete_storage_path: "complete".to_string(),
        request_storage_path: "requests".to_string(),
    };
    let request = GeneratePuzzleRequest { uuid: 1, image_path: "test.jpeg".to_string() };
    assert_eq!(config.image_path(&request), "requests/test.jpeg");
}

#[test]
fn failed_request_answer() {
    let r = ReportResposnse::new("No puzzle with such UUID".to_string());
    assert_eq!(r.status(), 500);
    assert_eq!(INTERNAL_SERVER_ERROR, 500);
    assert_eq!(r.body(), "Something went wrong: No puzzle with such UUID");
}

#[test]
fn session_steps() {
    assert_eq!(next_step(SessionStep::SetUserData, StepOutcome::Succeeded), SessionStep::LoadInitialData);
    assert_eq!(next_step(SessionStep::SetUserData, StepOutcome::Failed), SessionStep::Done);
    assert_eq!(next_step(SessionStep::LoadInitialData, StepOutcome::Succeeded), SessionStep::SendInitialData);
    assert_eq!(next_step(SessionStep::LoadInitialData, StepOutcome::Failed), SessionStep::Done);
    assert_eq!(next_step(SessionStep::SendInitialData, StepOutcome::Succeeded), SessionStep::AnnounceJoin);
    assert_eq!(next_step(SessionStep::SendInitialData, StepOutcome::Failed), SessionStep::Done);
    assert_eq!(next_step(SessionStep::AnnounceJoin, StepOutcome::Failed), SessionStep::Play);
    assert_eq!(next_step(SessionStep::Play, StepOutcome::Succeeded), SessionStep::AnnounceLeave);
    assert_eq!(next_step(SessionStep::AnnounceLeave, StepOutcome::Failed), SessionStep::ReleaseChannel);
    assert_eq!(next_step(SessionStep::ReleaseChannel, StepOutcome::Succeeded), SessionStep::Done);
    assert_eq!(next_step(SessionStep::Done, StepOutcome::Succeeded), SessionStep::Done);
}

#[test]
fn leave_is_announced_only_after_join() {
    let outcomes = [
        vec![StepOutcome::Succeeded; 8],
        vec![StepOutcome::Failed; 8],
        vec![StepOutcome::Succeeded, StepOutcome::Failed, StepOutcome::Succeeded, StepOutcome::Succeeded, StepOutcome::Succeeded, StepOutcome::Succeeded, StepOutcome::Succeeded, StepOutcome::Succeeded],
        vec![StepOutcome::Succeeded, StepOutcome::Succeeded, StepOutcome::Succeeded, StepOutcome::Failed, StepOutcome::Failed, StepOutcome::Failed, StepOutcome::Failed, StepOutcome::Failed],
    ];
    for run in outcomes {
        let mut step = SessionStep::SetUserData;
        let mut trace = vec![step];
        for o in run {
            step = next_step(step, o);
            trace.push(step);
        }
        for i in 1..trace.len() {
            if trace[i] == SessionStep::Play {
                assert_eq!(trace[i - 1], SessionStep::AnnounceJoin);
            }
            if trace[i] == SessionStep::AnnounceLeave {
                assert_eq!(trace[i - 1], SessionStep::Play);
            }
            if trace[i] == SessionStep::ReleaseChannel {
                assert_eq!(trace[i - 1], SessionStep::AnnounceLeave);
            }
        }
    }
}

#[test]
fn only_place_requests_are_acted_on() {
    let place = WsRequest::Place { tile_uuid: 9, index: JigsawIndex::new(1, 1) };
    assert_eq!(
        request_action(&place),
        RequestAction::Place { tile_uuid: 9, index: JigsawIndex::new(1, 1) }
    );
    assert_eq!(request_action(&WsRequest::Chat { message: "hi".to_string() }), RequestAction::Ignore);
    assert_eq!(
        request_action(&WsRequest::TelegramAuth { init_data: String::new() }),
        RequestAction::Ignore
    );
}

#[test]
fn channels_live_while_someone_listens() {
    let mut registry = ChannelRegistry::new();
    assert_eq!(registry.remove_if_no_receivers(PUZZLE), None);
    assert!(registry.get_sender(PUZZLE).is_none());
    let (mut first, sender) = registry.get_channel(PUZZLE);
    let (mut second, _) = registry.get_channel(PUZZLE);
    sender.send("7".to_string()).unwrap();
    assert_eq!(first.try_recv().unwrap(), "7");
    assert_eq!(second.try_recv().unwrap(), "7");
    let other = registry.get_sender(PUZZLE).expect("the channel stays");
    other.send("8".to_string()).unwrap();
    assert_eq!(first.try_recv().unwrap(), "8");
    assert_eq!(second.try_recv().unwrap(), "8");
    assert_eq!(registry.remove_if_no_receivers(PUZZLE), Some(false));
    drop(first);
    drop(second);
    assert_eq!(registry.remove_if_no_receivers(PUZZLE), Some(true));
    assert!(registry.get_sender(PUZZLE).is_none());
    assert_eq!(registry.remove_if_no_receivers(PUZZLE), None);
}

#[test]
fn preview_link_names_the_stored_preview() {
    let storage = JigsawFsImageStorage::new("/srv/complete".to_string());
    let bot = jigsaw::bot::Config {
        web_app_url: "https://jigsaw.example.com/".to_string(),
        bot_name: "b".to_string(),
        web_app_name: "a".to_string(),
        redis_url: "redis://127.0.0.1/".to_string(),
        request_storage_path: "r".to_string(),
    };
    let link = bot.get_puzzle_preview_url(PUZZLE).unwrap();
    let below_assets = link.strip_prefix("https://jigsaw.example.com/assets/").unwrap();
    assert_eq!(format!("/srv/complete/{below_assets}"), storage.preview_path(PUZZLE));
}

#[test]
fn different_ids_get_different_files() {
    let storage = JigsawFsImageStorage::new("/srv/complete".to_string());
    let ids = [0u128, 1, PUZZLE, u128::MAX, 1 << 64];
    for a in ids {
        for b in ids {
            assert_eq!(storage.puzzle_dir(a) == storage.puzzle_dir(b), a == b);
            assert_eq!(storage.tile_path(PUZZLE, a) == storage.tile_path(PUZZLE, b), a == b);
        }
    }
}

#[test]
fn a_channel_is_dropped_only_without_listeners() {
    let mut registry = ChannelRegistry::new();
    assert_eq!(registry.remove_if_count_zero(PUZZLE, 0), None);
    let (_receiver, _sender) = registry.get_channel(PUZZLE);
    assert_eq!(registry.remove_if_count_zero(PUZZLE, 1), Some(false));
    assert!(registry.get_sender(PUZZLE).is_some());
    assert_eq!(registry.remove_if_count_zero(PUZZLE, usize::MAX), Some(false));
    assert_eq!(registry.remove_if_count_zero(PUZZLE, 0), Some(true));
    assert!(registry.get_sender(PUZZLE).is_none());
}

#[test]
fn a_new_channel_keeps_a_power_of_two_of_messages() {
    assert_eq!(CHANNEL_CAPACITY, 100);
    let mut registry = ChannelRegistry::new();
    let (mut receiver, sender) = registry.get_channel(PUZZLE);
    for i in 0..128 {
        sender.send(i.to_string()).unwrap();
    }
    // all 128 messages are kept for the receiver that has not read yet
    assert_eq!(receiver.try_recv().unwrap(), "0");
    sender.send("128".to_string()).unwrap();
    sender.send("129".to_string()).unwrap();
    // now the receiver lags behind what the channel keeps
    assert!(receiver.try_recv().is_err());
}
