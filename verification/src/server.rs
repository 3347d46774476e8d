//! The settings of the HTTP and websocket server, and its answer to a
//! request that failed.
use vstd::prelude::*;

use vstd::utf8::encode_utf8;
use crate::auth::{spec_hmac_sha256, telegram_web_secret, web_app_data_key};

verus! {

/// The settings of the server. URLs are held as their text.
pub struct Config {
    pub redis_url: String,
    pub complete_storage_path: String,
    pub bot_token: String,
}

impl Config {
    /// The secret that signs the init data of the bot's Mini Apps:
    /// HMAC-SHA256 of the bot token under "WebAppData".
    pub fn get_telegram_web_secret(&self) -> (secret: Vec<u8>)
        ensures
            secret@ == spec_hmac_sha256(web_app_data_key(), encode_utf8(self.bot_token@)),
    {
        telegram_web_secret(self.bot_token.as_str())
    }
}

/// The answer to an HTTP request that failed: status 500 and a text that
/// names the error.
pub struct ReportResposnse {
    pub message: String,
}

/// The HTTP status of a failed request: Internal Server Error.
pub const INTERNAL_SERVER_ERROR: u16 = 500;

impl ReportResposnse {
    /// The answer for an error whose text is `message`.
    pub fn new(message: String) -> (r: ReportResposnse)
        ensures
            r.message == message,
    {
        ReportResposnse { message }
    }

    /// The HTTP status of the answer.
    pub fn status(&self) -> (r: u16)
        ensures
            r == INTERNAL_SERVER_ERROR,
    {
        INTERNAL_SERVER_ERROR
    }

    /// The body of the answer.
    pub fn body(&self) -> (r: String)
        ensures
            r@ == "Something went wrong: "@ + self.message@,
    {
        let mut text = String::from_str("Something went wrong: ");
        text.append(self.message.as_str());
        text
    }
}

} // verus!
