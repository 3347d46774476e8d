//! Who is on the other end of a puzzle websocket.
//!
//! A client picks an authorization protocol when it opens the socket. With the
//! Telegram protocol it first sends the init data of the Telegram Mini App,
//! which is accepted when its hash is the HMAC-SHA256 of its data check string
//! under the bot's web app secret, and when it is at most fifteen minutes old.
//! A protocol without credentials exists for testing only. The moment at
//! which init data is checked is handed in by the caller, who reads the clock.
use vstd::prelude::*;
use vstd::utf8::valid_utf8;
use vstd::string::StringSliceAdditionalSpecFns;

use crate::init_data::{
    auth_date_key, bytes_eq, data_check_string, field_value, hash_key, seqs_of,
    spec_data_check_string, spec_field, spec_split, split_bytes, user_key, AMPERSAND,
};
use crate::message::WsRequest;

verus! {

/// Why a websocket was refused or closed.
#[derive(Debug)]
pub enum SocketError {
    /// The client named no protocol.
    NoProtocol,
    /// The client named a protocol that this server does not speak.
    UnsupportedProtocol(String),
    /// The init data is not signed by Telegram for this bot.
    InvalidCredentials,
    /// The init data is older than fifteen minutes.
    CredentialsExpired,
    /// The client sent another request than the one expected, named here.
    InvalidRequest(String),
    /// The protocol header is not visible ASCII.
    ToStr,
    /// The client closed the socket.
    SocketClosed,
    /// The websocket failed, with its message.
    Axum(String),
    /// A request or the user record is not valid JSON, with the parser's message.
    Json(String),
    /// The percent-decoded init data is not UTF-8.
    FromUTF8,
}

/// How a client proves who it is.
#[derive(Copy, Clone, Debug, PartialEq, Eq, Structural)]
pub enum AuthMethod {
    /// The client sends Telegram Mini App init data.
    Telegram,
    /// The client plays as the test user, without credentials.
    NotSecure,
}

/// The protocol for clients inside Telegram.
pub const TELEGRAM_AUTH_PROTOCOL: &'static str = "jigsaw-telegram-auth";

/// The protocol without credentials, for testing.
pub const NOT_SECURE_PROTOCOL: &'static str = "jigsaw-not-secure";

/// The oldest init data that is accepted, in seconds: fifteen minutes.
pub const MAX_INIT_DATA_AGE_SECS: i64 = 900;

/// The protocols that the server offers: the Telegram protocol, and the one
/// without credentials when `allow_not_secure` (in debug builds only).
pub fn protocols(allow_not_secure: bool) -> (r: Vec<&'static str>)
    ensures
        allow_not_secure ==> r@.len() == 2 && r@[0]@ == TELEGRAM_AUTH_PROTOCOL@ && r@[1]@
            == NOT_SECURE_PROTOCOL@,
        !allow_not_secure ==> r@.len() == 1 && r@[0]@ == TELEGRAM_AUTH_PROTOCOL@,
{
    if allow_not_secure {
        vec![TELEGRAM_AUTH_PROTOCOL, NOT_SECURE_PROTOCOL]
    } else {
        vec![TELEGRAM_AUTH_PROTOCOL]
    }
}

/// Picks the authorization method for the protocol that a client asked for.
pub fn select_auth_method(protocol: Option<&str>, allow_not_secure: bool) -> (r: Result<
    AuthMethod,
    SocketError,
>)
    ensures
        match protocol {
            None => r == Err::<AuthMethod, SocketError>(SocketError::NoProtocol),
            Some(p) => if p@ == TELEGRAM_AUTH_PROTOCOL@ {
                r == Ok::<AuthMethod, SocketError>(AuthMethod::Telegram)
            } else if allow_not_secure && p@ == NOT_SECURE_PROTOCOL@ {
                r == Ok::<AuthMethod, SocketError>(AuthMethod::NotSecure)
            } else {
                r matches Err(SocketError::UnsupportedProtocol(name)) && name@ == p@
            },
        },
{
    match protocol {
        None => Err(SocketError::NoProtocol),
        Some(p) => {
            let asked = String::from_str(p);
            if asked == String::from_str(TELEGRAM_AUTH_PROTOCOL) {
                Ok(AuthMethod::Telegram)
            } else if allow_not_secure && asked == String::from_str(NOT_SECURE_PROTOCOL) {
                Ok(AuthMethod::NotSecure)
            } else {
                Err(SocketError::UnsupportedProtocol(asked))
            }
        },
    }
}

/// The init data of a `TelegramAuth` request; any other request is refused.
pub fn expect_telegram_auth(request: WsRequest) -> (r: Result<String, SocketError>)
    ensures
        match request {
            WsRequest::TelegramAuth { init_data } => r == Ok::<String, SocketError>(init_data),
            _ => r matches Err(SocketError::InvalidRequest(name)) && name@ == "TelegramAuth"@,
        },
{
    match request {
        WsRequest::TelegramAuth { init_data } => Ok(init_data),
        _ => Err(SocketError::InvalidRequest(String::from_str("TelegramAuth"))),
    }
}

/// A moment as seconds and nanoseconds since the Unix epoch.
#[derive(Copy, Clone, Debug, PartialEq, Eq, Structural)]
pub struct UnixTime {
    pub secs: i64,
    pub nanos: u32,
}

/// The value of a hexadecimal digit, in either case.
pub open spec fn hex_value(b: u8) -> Option<int> {
    if 48 <= b <= 57 {
        Some(b - 48)
    } else if 65 <= b <= 70 {
        Some(b - 55)
    } else if 97 <= b <= 102 {
        Some(b - 87)
    } else {
        None
    }
}

/// Percent-decoding: every '%' followed by two hexadecimal digits becomes the
/// byte they spell; every other byte, a '+' and a '%' without two hexadecimal
/// digits after it included, stays as it is.
pub open spec fn spec_percent_decode(s: Seq<u8>) -> Seq<u8>
    decreases s.len(),
{
    if s.len() == 0 {
        seq![]
    } else if s[0] == 37 && s.len() >= 3 && hex_value(s[1]) is Some && hex_value(s[2]) is Some {
        seq![(hex_value(s[1]).unwrap() * 16 + hex_value(s[2]).unwrap()) as u8] + spec_percent_decode(
            s.skip(3),
        )
    } else {
        seq![s[0]] + spec_percent_decode(s.drop_first())
    }
}

/// The lower-case hexadecimal digit for `n` (0 to 15), as an ASCII byte.
pub open spec fn hex_digit_byte(n: int) -> u8 {
    if n < 10 {
        (48 + n) as u8
    } else {
        (87 + n) as u8
    }
}

/// Lower-case hexadecimal text of `data`, two digits per byte, high digit first.
pub open spec fn spec_hex_lower(data: Seq<u8>) -> Seq<u8>
    decreases data.len(),
{
    if data.len() == 0 {
        seq![]
    } else {
        seq![hex_digit_byte(data[0] as int / 16), hex_digit_byte(data[0] as int % 16)] + spec_hex_lower(
            data.drop_first(),
        )
    }
}

/// The HMAC-SHA256 tag of `msg` under `key`, as computed by `ring::hmac`.
pub uninterp spec fn spec_hmac_sha256(key: Seq<u8>, msg: Seq<u8>) -> Seq<u8>;

/// The first second that chrono can represent, in seconds after the Unix
/// epoch: January 1, 262144 BCE, 00:00:00.
pub const MIN_TIMESTAMP_SECS: i64 = -8_334_601_228_800;

/// The last second that chrono can represent, in seconds after the Unix
/// epoch: December 31, 262142 CE, 23:59:59.
pub const MAX_TIMESTAMP_SECS: i64 = 8_210_266_876_799;

/// Whether chrono can represent the moment `secs` seconds after the Unix
/// epoch: whether it falls between the first and the last day of chrono's
/// dates.
pub open spec fn spec_timestamp_valid(secs: i64) -> bool {
    MIN_TIMESTAMP_SECS <= secs <= MAX_TIMESTAMP_SECS
}

/// Decodes percent-encoded text: `urlencoding::decode`, which fails when the
/// decoded bytes are not UTF-8.
#[verifier::external_body]
pub(crate) fn percent_decode(data: &str) -> (r: Option<Vec<u8>>)
    ensures
        match r {
            Some(d) => valid_utf8(spec_percent_decode(data.spec_bytes())) && d@ == spec_percent_decode(
                data.spec_bytes(),
            ),
            None => !valid_utf8(spec_percent_decode(data.spec_bytes())),
        },
{
    urlencoding::decode(data).ok().map(|text| text.into_owned().into_bytes())
}

/// Lower-case hexadecimal text of `data`: `hex::encode`.
#[verifier::external_body]
pub(crate) fn hex_encode(data: &[u8]) -> (r: Vec<u8>)
    ensures
        r@ == spec_hex_lower(data@),
{
    hex::encode(data).into_bytes()
}

/// The HMAC-SHA256 tag of `msg` under `key`: `ring::hmac::sign` with a
/// `ring::hmac::Key` made from `key` for `HMAC_SHA256`. The tag is named.
#[verifier::external_body]
pub(crate) fn hmac_sha256(key: &[u8], msg: &[u8]) -> (tag: Vec<u8>)
    ensures
        tag@ == spec_hmac_sha256(key@, msg@),
{
    let key = ring::hmac::Key::new(ring::hmac::HMAC_SHA256, key);
    ring::hmac::sign(&key, msg).as_ref().to_vec()
}

/// Whether chrono can represent a Unix timestamp:
/// `chrono::NaiveDateTime::from_timestamp_opt`. chrono counts the days since
/// the epoch and accepts them exactly when they fall in a year from its
/// first, 262144 BCE, to its last, 262142 CE; the time of day of a whole
/// second always exists.
#[verifier::external_body]
#[allow(deprecated)]
pub(crate) fn timestamp_is_valid(secs: i64) -> (r: bool)
    ensures
        r == spec_timestamp_valid(secs),
{
    chrono::NaiveDateTime::from_timestamp_opt(secs, 0).is_some()
}


/// The bytes of "WebAppData", the key under which a bot token is turned into
/// the secret that signs its Mini App init data.
pub open spec fn web_app_data_key() -> Seq<u8> {
    seq![87u8, 101u8, 98u8, 65u8, 112u8, 112u8, 68u8, 97u8, 116u8, 97u8]
}

/// The secret that signs the init data of the Mini Apps of a bot:
/// HMAC-SHA256 of the bot token under "WebAppData".
pub fn telegram_web_secret(bot_token: &str) -> (secret: Vec<u8>)
    ensures
        secret@ == spec_hmac_sha256(web_app_data_key(), bot_token.spec_bytes()),
{
    let key: Vec<u8> = vec![87u8, 101u8, 98u8, 65u8, 112u8, 112u8, 68u8, 97u8, 116u8, 97u8];
    assert(key@ =~= web_app_data_key());
    hmac_sha256(key.as_slice(), bot_token.as_bytes())
}

/// The ASCII digits '0' to '9'.
pub open spec fn is_digit(b: u8) -> bool {
    48 <= b <= 57
}

/// The number that a sequence of decimal digits spells.
pub open spec fn digits_value(s: Seq<u8>) -> int
    decreases s.len(),
{
    if s.len() == 0 {
        0
    } else {
        digits_value(s.drop_last()) * 10 + (s.last() - 48)
    }
}

/// The digits of text that `spec_parse_i64` reads: all of it but a leading sign.
pub open spec fn unsigned_part(s: Seq<u8>) -> Seq<u8> {
    if s.len() > 0 && (s[0] == 45 || s[0] == 43) {
        s.drop_first()
    } else {
        s
    }
}

/// Every byte of `s` is a decimal digit.
pub open spec fn all_digits(s: Seq<u8>) -> bool {
    forall|i: int| 0 <= i < s.len() ==> is_digit(#[trigger] s[i])
}

/// `str::parse::<i64>` on ASCII text: an optional '+' or '-' followed by one
/// or more decimal digits, whose value fits in an `i64`.
pub open spec fn spec_parse_i64(s: Seq<u8>) -> Option<i64> {
    let body = unsigned_part(s);
    let magnitude = digits_value(body);
    let v = if s.len() > 0 && s[0] == 45 {
        -magnitude
    } else {
        magnitude
    };
    if body.len() == 0 || !all_digits(body) {
        None
    } else if i64::MIN <= v <= i64::MAX {
        Some(v as i64)
    } else {
        None
    }
}

proof fn lemma_digits_monotone(s: Seq<u8>, k: int)
    requires
        0 <= k <= s.len(),
        forall|i: int| 0 <= i < s.len() ==> is_digit(#[trigger] s[i]),
    ensures
        digits_value(s) >= digits_value(s.take(k)) >= 0,
    decreases s.len(),
{
    if k == s.len() {
        assert(s.take(k) =~= s);
        if s.len() > 0 {
            lemma_digits_monotone(s.drop_last(), k - 1);
        }
    } else {
        lemma_digits_monotone(s.drop_last(), k);
        assert(s.drop_last().take(k) =~= s.take(k));
    }
}

/// Parses a decimal integer like `str::parse::<i64>`.
pub fn parse_i64(s: &[u8]) -> (r: Option<i64>)
    ensures
        r == spec_parse_i64(s@),
{
    let signed = s.len() > 0 && (s[0] == 45 || s[0] == 43);
    let negative = s.len() > 0 && s[0] == 45;
    let start: usize = if signed {
        1
    } else {
        0
    };
    let ghost body = unsigned_part(s@);
    assert(body =~= s@.skip(start as int));
    if start == s.len() {
        return None;
    }
    let bound: u128 = 9223372036854775808;
    let mut acc: u128 = 0;
    let mut i: usize = start;
    assert(body.take(0) =~= Seq::<u8>::empty());
    while i < s.len()
        invariant
            start <= i <= s.len(),
            body == s@.skip(start as int),
            body == unsigned_part(s@),
            bound == 9223372036854775808,
            acc <= bound,
            acc == digits_value(body.take(i - start)),
            forall|j: int| 0 <= j < i - start ==> is_digit(#[trigger] body[j]),
        decreases s.len() - i,
    {
        let b = s[i];
        assert(body[i - start] == b);
        if b < 48 || b > 57 {
            assert(!is_digit(body[i - start]));
            return None;
        }
        let ghost prefix = body.take(i - start + 1);
        assert(prefix.drop_last() =~= body.take(i - start));
        assert(prefix.last() == b);
        assert(acc * 10 <= bound * 10) by (nonlinear_arith)
            requires
                acc <= bound,
        ;
        acc = acc * 10 + (b - 48) as u128;
        if acc > bound {
            proof {
                if all_digits(body) {
                    lemma_digits_monotone(body, i - start + 1);
                    assert(digits_value(body) > bound);
                }
            }
            return None;
        }
        i = i + 1;
    }
    assert(body.take(s.len() - start) =~= body);
    if negative {
        if acc == bound {
            Some(-9223372036854775807i64 - 1)
        } else {
            let m = acc as i64;
            Some(-m)
        }
    } else {
        if acc < bound {
            Some(acc as i64)
        } else {
            None
        }
    }
}

/// Whether init data signed at `auth_date` is too old at `now`: more than
/// fifteen minutes have passed.
pub open spec fn spec_expired(now: UnixTime, auth_date: i64) -> bool {
    let elapsed = now.secs - auth_date;
    elapsed > MAX_INIT_DATA_AGE_SECS || (elapsed == MAX_INIT_DATA_AGE_SECS && now.nanos > 0)
}

/// Whether init data signed at `auth_date` is too old at `now`.
pub fn is_expired(now: UnixTime, auth_date: i64) -> (r: bool)
    ensures
        r == spec_expired(now, auth_date),
{
    let elapsed: i128 = now.secs as i128 - auth_date as i128;
    elapsed > MAX_INIT_DATA_AGE_SECS as i128 || (elapsed == MAX_INIT_DATA_AGE_SECS as i128
        && now.nanos > 0)
}

/// The outcome of the check of the init data fields `fields` whose data
/// check string has the HMAC-SHA256 tag `tag` under the bot's secret, at
/// `now`. `Some(Ok(user))` gives the text of the "user" field; `Some(Err(..))`
/// a refusal; `None` fields that are signed correctly but lack a valid
/// "auth_date" or a "user" field.
pub open spec fn spec_check_fields(fields: Seq<Seq<u8>>, tag: Seq<u8>, now: UnixTime) -> Option<
    Result<Seq<u8>, SocketError>,
> {
    match spec_field(fields, hash_key()) {
        None => Some(Err(SocketError::InvalidCredentials)),
        Some(hash) => if spec_hex_lower(tag) != hash {
            Some(Err(SocketError::InvalidCredentials))
        } else {
            match spec_field(fields, auth_date_key()) {
                None => None,
                Some(date) => match spec_parse_i64(date) {
                    None => None,
                    Some(t) => if !spec_timestamp_valid(t) {
                        None
                    } else if spec_expired(now, t) {
                        Some(Err(SocketError::CredentialsExpired))
                    } else {
                        match spec_field(fields, user_key()) {
                            None => None,
                            Some(user) => Some(Ok(user)),
                        }
                    },
                },
            }
        },
    }
}

/// The outcome of the check of percent-encoded init data `raw` against
/// `secret` at `now`: init data that is no UTF-8 once decoded is refused;
/// otherwise its fields are checked against the tag of their data check
/// string.
pub open spec fn spec_check_init_data(raw: Seq<u8>, secret: Seq<u8>, now: UnixTime) -> Option<
    Result<Seq<u8>, SocketError>,
> {
    let decoded = spec_percent_decode(raw);
    let fields = spec_split(decoded, AMPERSAND);
    if !valid_utf8(decoded) {
        Some(Err(SocketError::FromUTF8))
    } else {
        spec_check_fields(fields, spec_hmac_sha256(secret, spec_data_check_string(fields)), now)
    }
}

/// The outcome of a check with the bytes of the user field taken by their view.
pub open spec fn check_view(r: Option<Result<Vec<u8>, SocketError>>) -> Option<
    Result<Seq<u8>, SocketError>,
> {
    match r {
        None => None,
        Some(Ok(user)) => Some(Ok(user@)),
        Some(Err(e)) => Some(Err(e)),
    }
}

/// Checks the fields of init data whose data check string has the tag `tag`
/// at the moment `now`, as `spec_check_fields` describes.
pub fn check_signed_fields(fields: &Vec<Vec<u8>>, tag: &[u8], now: UnixTime) -> (r: Option<
    Result<Vec<u8>, SocketError>,
>)
    ensures
        check_view(r) == spec_check_fields(seqs_of(fields@), tag@, now),
{
    let hash_name: Vec<u8> = vec![104u8, 97u8, 115u8, 104u8];
    assert(hash_name@ =~= hash_key());
    let hash = match field_value(fields, hash_name.as_slice()) {
        None => return Some(Err(SocketError::InvalidCredentials)),
        Some(h) => h,
    };
    let expected = hex_encode(tag);
    if !bytes_eq(expected.as_slice(), hash.as_slice()) {
        return Some(Err(SocketError::InvalidCredentials));
    }
    let date_name: Vec<u8> = vec![97u8, 117u8, 116u8, 104u8, 95u8, 100u8, 97u8, 116u8, 101u8];
    assert(date_name@ =~= auth_date_key());
    let date = match field_value(fields, date_name.as_slice()) {
        None => return None,
        Some(d) => d,
    };
    let auth_date = match parse_i64(date.as_slice()) {
        None => return None,
        Some(t) => t,
    };
    if !timestamp_is_valid(auth_date) {
        return None;
    }
    if is_expired(now, auth_date) {
        return Some(Err(SocketError::CredentialsExpired));
    }
    let user_name: Vec<u8> = vec![117u8, 115u8, 101u8, 114u8];
    assert(user_name@ =~= user_key());
    match field_value(fields, user_name.as_slice()) {
        None => None,
        Some(user) => Some(Ok(user)),
    }
}

/// Checks percent-encoded Mini App init data against the bot's web app
/// `secret` at the moment `now`, as `spec_check_init_data` describes.
pub fn check_init_data(init_data: &str, secret: &[u8], now: UnixTime) -> (r: Option<
    Result<Vec<u8>, SocketError>,
>)
    ensures
        check_view(r) == spec_check_init_data(init_data.spec_bytes(), secret@, now),
{
    // initData is percent-encoded
    let decoded = match percent_decode(init_data) {
        None => return Some(Err(SocketError::FromUTF8)),
        Some(d) => d,
    };
    let fields = split_bytes(&decoded, AMPERSAND);
    let check = data_check_string(&fields);
    let tag = hmac_sha256(secret, check.as_slice());
    check_signed_fields(&fields, tag.as_slice(), now)
}


} // verus!
