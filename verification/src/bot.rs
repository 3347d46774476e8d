//! The Telegram bot: what it answers, which links it hands out, and the
//! request it sends the generator for a picture.
//!
//! A picture sent to the bot is saved under the bot's request storage and
//! announced to the generator; when the generator is done, the bot offers a
//! link that opens the puzzle in the Mini App and a button that shares it in
//! another chat through an inline query whose text is the puzzle's id.
use vstd::prelude::*;

use crate::ids::{is_random_uuid, new_v4, parse_uuid, spec_hyphenated, spec_parse_uuid, uuid_to_string};
use crate::model::puzzle::JigsawMeta;
use crate::model::request::{GeneratePuzzleRequest, PuzzleGeneratedEvent};
use crate::paths::{file_name, join_path, spec_file_name, spec_join};
use crate::redis_scheme::RedisScheme;

verus! {

/// The answer to /help, and to any message that is neither a picture nor a
/// command.
pub const HELP_TEXT: &'static str = "Send an image to create a puzzle 🧩";

/// The answer to /start.
pub const START_TEXT: &'static str = "Welcome to the Jigsaw Puzzle bot!\n\nTurn any image into a Jigsaw Puzzle and solve it together with friends without leaving Telegram\n\nSend an image to create a puzzle 🧩";

/// The answer to a picture, while the generator works on it.
pub const GENERATING_TEXT: &'static str = "Generating puzzle...";

/// The message when no puzzle could be made of a picture.
pub const FAILED_TEXT: &'static str = "Failed to create a puzzle. It's likely that the image is too small. Try a different one!";

/// The message when a puzzle is ready.
pub const DONE_TEXT: &'static str = "Done! Now share it with friends or play alone";

/// The button that opens a new puzzle for its author.
pub const PLAY_ALONE_TEXT: &'static str = "Play alone";

/// The button that shares a new puzzle in another chat.
pub const SHARE_TEXT: &'static str = "Share with friends";

/// The button under a shared puzzle.
pub const PLAY_TEXT: &'static str = "Play";

/// How long the chat of a request is kept for the generator's answer, in
/// seconds.
pub const REQUEST_DATA_TTL_SECS: u64 = 60;

/// The commands of the bot.
#[derive(Copy, Clone, Debug, PartialEq, Eq, Structural)]
pub enum Command {
    Start,
    Help,
}

impl Command {
    /// The answer to the command.
    pub fn reply(&self) -> (r: &'static str)
        ensures
            r@ == (match *self {
                Command::Start => START_TEXT@,
                Command::Help => HELP_TEXT@,
            }),
    {
        match self {
            Command::Start => START_TEXT,
            Command::Help => HELP_TEXT,
        }
    }
}

/// What the bot does with a message.
#[derive(Copy, Clone, Debug)]
pub enum MessageAction {
    /// Turn the picture of the message into a puzzle.
    GeneratePuzzle,
    /// Answer with a text.
    Reply(&'static str),
}

/// What the bot does with a message: a picture that Telegram could hand over
/// becomes a puzzle; a command gets its answer; anything else gets the help.
pub fn message_action(has_picture: bool, command: Option<Command>) -> (r: MessageAction)
    ensures
        has_picture ==> r is GeneratePuzzle,
        !has_picture ==> (r matches MessageAction::Reply(text) && text@ == (match command {
            Some(Command::Start) => START_TEXT@,
            _ => HELP_TEXT@,
        })),
{
    if has_picture {
        MessageAction::GeneratePuzzle
    } else {
        match command {
            Some(c) => MessageAction::Reply(c.reply()),
            None => MessageAction::Reply(HELP_TEXT),
        }
    }
}

/// What `url::Url::parse` makes of a text: the serialization of the URL, or
/// nothing when the text is not one.
pub uninterp spec fn spec_parse_url(text: Seq<char>) -> Option<Seq<char>>;

/// The URL `url` with `segments` appended to its path by
/// `url::PathSegmentsMut::extend`, or nothing when `url` is not a URL that
/// can be a base.
pub uninterp spec fn spec_url_with_segments(url: Seq<char>, segments: Seq<Seq<char>>) -> Option<
    Seq<char>,
>;

/// Parses a URL: `url::Url::parse`, giving back its serialization. The
/// result is named, not stated.
#[verifier::external_body]
fn parse_url(text: &str) -> (r: Option<String>)
    ensures
        r.deep_view() == spec_parse_url(text@),
{
    url::Url::parse(text).ok().map(String::from)
}

/// Appends path segments to a URL: `url::Url::parse`, then
/// `url::Url::path_segments_mut` and `url::PathSegmentsMut::extend`, which
/// percent-encode each segment and put a '/' before it. The result is
/// named, not stated.
#[verifier::external_body]
fn url_with_segments(url: &str, segments: &Vec<String>) -> (r: Option<String>)
    ensures
        r.deep_view() == spec_url_with_segments(url@, segments.deep_view()),
{
    let mut url = url::Url::parse(url).ok()?;
    url.path_segments_mut().ok()?.extend(segments.iter());
    Some(String::from(url))
}

/// The settings of the bot. URLs are held as their text.
pub struct Config {
    pub web_app_url: String,
    pub bot_name: String,
    pub web_app_name: String,
    pub redis_url: String,
    pub request_storage_path: String,
}

/// The link that opens a puzzle in the Mini App `web_app_name` of the bot
/// `bot_name`.
pub open spec fn spec_puzzle_url_text(bot_name: Seq<char>, web_app_name: Seq<char>, puzzle_uuid: u128) -> Seq<
    char,
> {
    "https://t.me/"@ + bot_name + "/"@ + web_app_name + "?startapp="@ + spec_hyphenated(puzzle_uuid)
}

/// The path segments of the preview picture of a puzzle, under the web app.
pub open spec fn preview_segments(puzzle_uuid: u128) -> Seq<Seq<char>> {
    seq!["assets"@, spec_hyphenated(puzzle_uuid), "preview.jpeg"@]
}

impl Config {
    /// The text of the link that opens a puzzle in the Mini App.
    pub fn puzzle_url_text(&self, puzzle_uuid: u128) -> (r: String)
        ensures
            r@ == spec_puzzle_url_text(self.bot_name@, self.web_app_name@, puzzle_uuid),
    {
        let mut text = String::from_str("https://t.me/");
        text.append(self.bot_name.as_str());
        text.append("/");
        text.append(self.web_app_name.as_str());
        text.append("?startapp=");
        let id = uuid_to_string(puzzle_uuid);
        text.append(id.as_str());
        text
    }

    /// The link that opens a puzzle in the Mini App, as `url::Url` reads it;
    /// nothing when the bot's names make it no URL.
    pub fn get_puzzle_url(&self, puzzle_uuid: u128) -> (r: Option<String>)
        ensures
            r.deep_view() == spec_parse_url(
                spec_puzzle_url_text(self.bot_name@, self.web_app_name@, puzzle_uuid),
            ),
    {
        let text = self.puzzle_url_text(puzzle_uuid);
        parse_url(text.as_str())
    }

    /// The link to the preview picture of a puzzle: the web app's URL with
    /// the path segments "assets", the puzzle's id and "preview.jpeg"
    /// appended; nothing when the web app's URL cannot be a base.
    pub fn get_puzzle_preview_url(&self, puzzle_uuid: u128) -> (r: Option<String>)
        ensures
            r.deep_view() == spec_url_with_segments(self.web_app_url@, preview_segments(puzzle_uuid)),
    {
        let segments: Vec<String> = vec![
            String::from_str("assets"),
            uuid_to_string(puzzle_uuid),
            String::from_str("preview.jpeg"),
        ];
        assert(segments.deep_view() =~= preview_segments(puzzle_uuid));
        url_with_segments(self.web_app_url.as_str(), &segments)
    }
}

/// What the bot does with a picture once Telegram has said where the file
/// is: save it at `download_path`, keep the chat under `data_key` for
/// `REQUEST_DATA_TTL_SECS`, send `request` to the generator and answer
/// with `reply`.
pub struct GenerationPlan {
    pub download_path: String,
    pub request: GeneratePuzzleRequest,
    pub data_key: String,
    pub data_ttl_secs: u64,
    pub reply: &'static str,
}

/// Plans the handling of a picture that Telegram keeps at `telegram_path`.
/// The picture keeps its file name in the bot's request storage, and the
/// request gets a new random id. Nothing comes of a path without a file
/// name.
pub fn plan_generation(config: &Config, telegram_path: &str) -> (r: Option<GenerationPlan>)
    ensures
        match spec_file_name(telegram_path@) {
            None => r is None,
            Some(name) => (r matches Some(plan) && plan.download_path@ == spec_join(
                config.request_storage_path@,
                name,
            ) && plan.request.image_path@ == name && is_random_uuid(plan.request.uuid)
                && plan.data_key@ == "request_message_data:"@ + spec_hyphenated(plan.request.uuid)
                && plan.data_ttl_secs == REQUEST_DATA_TTL_SECS && plan.reply@ == GENERATING_TEXT@),
        },
{
    let name = match file_name(telegram_path) {
        None => return None,
        Some(name) => name,
    };
    let download_path = join_path(config.request_storage_path.as_str(), name.as_str());
    let uuid = new_v4();
    let data_key = RedisScheme::request_message_data(uuid);
    Some(
        GenerationPlan {
            download_path,
            request: GeneratePuzzleRequest { uuid, image_path: name },
            data_key,
            data_ttl_secs: REQUEST_DATA_TTL_SECS,
            reply: GENERATING_TEXT,
        },
    )
}

/// The bot's message to the author of a picture once the generator is done.
pub enum EventReply {
    /// No puzzle could be made of the picture.
    Failed { text: &'static str },
    /// The puzzle is ready: a button that shares it through an inline query
    /// with `share_query`, and one that opens `play_url`.
    Done { text: &'static str, share_query: String, play_url: String },
}

/// The bot's message for the generator's answer `event`; nothing when the
/// link to the new puzzle is no URL.
pub fn reply_to_generated(config: &Config, event: PuzzleGeneratedEvent) -> (r: Option<EventReply>)
    ensures
        match event.puzzle_uuid {
            None => (r matches Some(EventReply::Failed { text }) && text@ == FAILED_TEXT@),
            Some(id) => match spec_parse_url(
                spec_puzzle_url_text(config.bot_name@, config.web_app_name@, id),
            ) {
                None => r is None,
                Some(url) => (r matches Some(EventReply::Done { text, share_query, play_url })
                    && text@ == DONE_TEXT@ && share_query@ == spec_hyphenated(id) && play_url@
                    == url),
            },
        },
{
    match event.puzzle_uuid {
        None => Some(EventReply::Failed { text: FAILED_TEXT }),
        Some(id) => {
            let play_url = match config.get_puzzle_url(id) {
                None => return None,
                Some(url) => url,
            };
            Some(EventReply::Done { text: DONE_TEXT, share_query: uuid_to_string(id), play_url })
        },
    }
}

/// The puzzle that an inline query names: its text read as a UUID.
pub fn inline_puzzle_id(query: &str) -> (r: Option<u128>)
    ensures
        r == spec_parse_uuid(query@),
        forall|id: u128| #[trigger] spec_hyphenated(id) == query@ ==> r == Some(id),
{
    parse_uuid(query)
}

/// The id of the placeholder article of an inline answer.
pub const INLINE_ARTICLE_ID: &'static str = "dummy";

/// The title of the placeholder article.
pub const INLINE_ARTICLE_TITLE: &'static str = "⬇️ ⬇️ ⬇️";

/// The text that the placeholder article sends.
pub const INLINE_ARTICLE_TEXT: &'static str = "Jigsaw Puzzle Bot by @kpids";

/// The id of the shared puzzle's photo in an inline answer.
pub const INLINE_PHOTO_ID: &'static str = "share";

/// The title of the shared puzzle's photo.
pub const INLINE_PHOTO_TITLE: &'static str = "Share puzzle";

/// The description of the shared puzzle's photo.
pub const INLINE_PHOTO_DESCRIPTION: &'static str = "Click here to share";

/// The caption under the shared puzzle's photo.
pub const INLINE_PHOTO_CAPTION: &'static str = "Solve a Jigsaw Puzzle together!";

/// The shared puzzle in an inline answer: its preview picture with its size,
/// and a button that opens `play_url`.
pub struct InlineShare {
    pub play_url: String,
    pub preview_url: String,
    pub photo_width: i32,
    pub photo_height: i32,
}

/// The inline answer that shares the puzzle `puzzle_uuid` of sizes `meta`;
/// nothing when its links are no URLs.
pub fn inline_share(config: &Config, puzzle_uuid: u128, meta: JigsawMeta) -> (r: Option<InlineShare>)
    ensures
        match (
            spec_parse_url(spec_puzzle_url_text(config.bot_name@, config.web_app_name@, puzzle_uuid)),
            spec_url_with_segments(config.web_app_url@, preview_segments(puzzle_uuid)),
        ) {
            (Some(play), Some(preview)) => (r matches Some(share) && share.play_url@ == play
                && share.preview_url@ == preview && share.photo_width == meta.image_dimensions_px.0 as i32
                && share.photo_height == meta.image_dimensions_px.1 as i32),
            _ => r is None,
        },
{
    let play_url = match config.get_puzzle_url(puzzle_uuid) {
        None => return None,
        Some(url) => url,
    };
    let preview_url = match config.get_puzzle_preview_url(puzzle_uuid) {
        None => return None,
        Some(url) => url,
    };
    Some(
        InlineShare {
            play_url,
            preview_url,
            photo_width: meta.image_dimensions_px.0 as i32,
            photo_height: meta.image_dimensions_px.1 as i32,
        },
    )
}

} // verus!
