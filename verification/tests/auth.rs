use jigsaw::auth::{
    check_init_data, check_signed_fields, expect_telegram_auth, is_expired, parse_i64, select_auth_method,
    telegram_web_secret, AuthMethod, SocketError, UnixTime, MAX_INIT_DATA_AGE_SECS, MAX_TIMESTAMP_SECS,
    MIN_TIMESTAMP_SECS,
};
use jigsaw::message::WsRequest;
use jigsaw::model::puzzle::JigsawIndex;
use jigsaw::server::Config;

const BOT_TOKEN: &str = "123456:ABC-DEF";

const SIGNED_INIT_DATA: &str = "query_id=AAH&user=%7B%22id%22%3A42%2C%22first_name%22%3A%22Ann%22%7D&auth_date=1700000000&hash=d7d765c924e667134abe84198e64d85e29b8f86d6c247e7e9f1b2f5692a6cb5b";

const SIGNED_AT: i64 = 1700000000;

fn secret() -> Vec<u8> {
    telegram_web_secret(BOT_TOKEN)
}

fn at(secs: i64, nanos: u32) -> UnixTime {
    UnixTime { secs, nanos }
}

#[test]
fn web_secret_is_hmac_of_the_token_under_web_app_data() {
    let expected: Vec<u8> = vec![
        75, 26, 251, 71, 218, 68, 213, 48, 255, 79, 231, 41, 184, 61, 19, 75, 181, 5, 119, 166,
        1, 201, 234, 208, 172, 51, 53, 85, 70, 240, 31, 65,
    ];
    assert_eq!(secret(), expected);
    let config = Config {
        redis_url: "redis://127.0.0.1/".to_string(),
        complete_storage_path: "complete".to_string(),
        bot_token: BOT_TOKEN.to_string(),
    };
    assert_eq!(config.get_telegram_web_secret(), expected);
}

#[test]
fn protocol_selection() {
    assert!(matches!(select_auth_method(None, true), Err(SocketError::NoProtocol)));
    assert_eq!(
        select_auth_method(Some("jigsaw-telegram-auth"), false).unwrap(),
        AuthMethod::Telegram
    );
    assert_eq!(
        select_auth_method(Some("jigsaw-not-secure"), true).unwrap(),
        AuthMethod::NotSecure
    );
    match select_auth_method(Some("jigsaw-not-secure"), false) {
        Err(SocketError::UnsupportedProtocol(name)) => assert_eq!(name, "jigsaw-not-secure"),
        _ => panic!("the protocol without credentials must be refused"),
    }
    match select_auth_method(Some("chat"), true) {
        Err(SocketError::UnsupportedProtocol(name)) => assert_eq!(name, "chat"),
        _ => panic!("an unknown protocol must be refused"),
    }
}

#[test]
fn first_request_must_carry_credentials() {
    let auth = WsRequest::TelegramAuth { init_data: "abc".to_string() };
    assert_eq!(expect_telegram_auth(auth).unwrap(), "abc");
    let place = WsRequest::Place { tile_uuid: 1, index: JigsawIndex::new(0, 0) };
    match expect_telegram_auth(place) {
        Err(SocketError::InvalidRequest(name)) => assert_eq!(name, "TelegramAuth"),
        _ => panic!("a place request is no credential"),
    }
    let chat = WsRequest::Chat { message: "hi".to_string() };
    assert!(matches!(expect_telegram_auth(chat), Err(SocketError::InvalidRequest(_))));
}

#[test]
fn signed_init_data_gives_the_user() {
    let r = check_init_data(SIGNED_INIT_DATA, &secret(), at(SIGNED_AT + 10, 0));
    match r {
        Some(Ok(user)) => assert_eq!(user, br#"{"id":42,"first_name":"Ann"}"#.to_vec()),
        _ => panic!("signed init data must be accepted"),
    }
}

#[test]
fn init_data_of_another_bot_is_refused() {
    let other = telegram_web_secret("654321:XYZ");
    let r = check_init_data(SIGNED_INIT_DATA, &other, at(SIGNED_AT, 0));
    assert!(matches!(r, Some(Err(SocketError::InvalidCredentials))));
}

#[test]
fn tampered_init_data_is_refused() {
    let tampered = SIGNED_INIT_DATA.replace("%3A42", "%3A43");
    let r = check_init_data(&tampered, &secret(), at(SIGNED_AT, 0));
    assert!(matches!(r, Some(Err(SocketError::InvalidCredentials))));
}

#[test]
fn init_data_without_hash_is_refused() {
    let r = check_init_data("auth_date=1700000000&user=%7B%7D", &secret(), at(SIGNED_AT, 0));
    assert!(matches!(r, Some(Err(SocketError::InvalidCredentials))));
}

#[test]
fn init_data_that_is_no_utf8_is_refused() {
    let r = check_init_data("user=%FF&hash=00", &secret(), at(SIGNED_AT, 0));
    assert!(matches!(r, Some(Err(SocketError::FromUTF8))));
}

#[test]
fn init_data_expires_after_fifteen_minutes() {
    let last = check_init_data(SIGNED_INIT_DATA, &secret(), at(SIGNED_AT + 900, 0));
    assert!(matches!(last, Some(Ok(_))));
    let late = check_init_data(SIGNED_INIT_DATA, &secret(), at(SIGNED_AT + 900, 1));
    assert!(matches!(late, Some(Err(SocketError::CredentialsExpired))));
    let later = check_init_data(SIGNED_INIT_DATA, &secret(), at(SIGNED_AT + 3600, 0));
    assert!(matches!(later, Some(Err(SocketError::CredentialsExpired))));
}

#[test]
fn expiry_boundaries() {
    assert_eq!(MAX_INIT_DATA_AGE_SECS, 900);
    assert!(!is_expired(at(1000, 0), 100));
    assert!(is_expired(at(1000, 1), 100));
    assert!(is_expired(at(1001, 0), 100));
    assert!(!is_expired(at(50, 999_999_999), 100));
    assert!(is_expired(at(i64::MAX, 0), i64::MIN));
    assert!(!is_expired(at(i64::MIN, 0), i64::MAX));
}

#[test]
fn signed_init_data_without_user_or_date_gives_no_answer() {
    // signed correctly, but without a user, or with a date that is no number:
    // where the server would stop, the check has no answer
    let no_user = "auth_date=1700000000&hash=282f0d53b5e79936acfe417d2e3f514831611dba5d5335a843975469a9151b75";
    assert!(check_init_data(no_user, &secret(), at(SIGNED_AT, 0)).is_none());
    let bad_date = "user=%7B%7D&auth_date=abc&hash=3609a252c5a52d3a42833234421ccff6f1b1f438b6d53ef4e926fc07f897ce65";
    assert!(check_init_data(bad_date, &secret(), at(SIGNED_AT, 0)).is_none());
}

#[test]
fn decimal_parsing_like_str_parse() {
    assert_eq!(parse_i64(b"1700000000"), Some(1700000000));
    assert_eq!(parse_i64(b"+7"), Some(7));
    assert_eq!(parse_i64(b"-7"), Some(-7));
    assert_eq!(parse_i64(b"0"), Some(0));
    assert_eq!(parse_i64(b"9223372036854775807"), Some(i64::MAX));
    assert_eq!(parse_i64(b"-9223372036854775808"), Some(i64::MIN));
    assert_eq!(parse_i64(b"9223372036854775808"), None);
    assert_eq!(parse_i64(b"-9223372036854775809"), None);
    assert_eq!(parse_i64(b""), None);
    assert_eq!(parse_i64(b"-"), None);
    assert_eq!(parse_i64(b"+"), None);
    assert_eq!(parse_i64(b"12a"), None);
    assert_eq!(parse_i64(b" 12"), None);
    for text in ["0", "42", "-42", "+42", "123456789012", "-1", "99999999999999999999"] {
        assert_eq!(parse_i64(text.as_bytes()), text.parse::<i64>().ok(), "{text}");
    }
}

#[test]
fn offered_protocols() {
    assert_eq!(jigsaw::auth::protocols(false), vec!["jigsaw-telegram-auth"]);
    assert_eq!(jigsaw::auth::protocols(true), vec!["jigsaw-telegram-auth", "jigsaw-not-secure"]);
    for allow in [false, true] {
        for p in jigsaw::auth::protocols(allow) {
            assert!(select_auth_method(Some(p), allow).is_ok());
        }
    }
}

#[test]
fn signed_fields_are_checked_against_the_tag() {

    let fields = vec![b"auth_date=100".to_vec(), b"user=x".to_vec(), b"hash=ab0f".to_vec()];
    let tag = [0xab, 0x0f];
    match check_signed_fields(&fields, &tag, at(150, 0)) {
        Some(Ok(user)) => assert_eq!(user, b"x".to_vec()),
        _ => panic!("the tag matches"),
    }
    assert!(matches!(
        check_signed_fields(&fields, &[0xab, 0x0e], at(150, 0)),
        Some(Err(SocketError::InvalidCredentials))
    ));
    // the hash must be written in lower case
    let upper = vec![b"auth_date=100".to_vec(), b"user=x".to_vec(), b"hash=AB0F".to_vec()];
    assert!(matches!(
        check_signed_fields(&upper, &tag, at(150, 0)),
        Some(Err(SocketError::InvalidCredentials))
    ));
    assert!(matches!(
        check_signed_fields(&fields, &tag, at(100 + 901, 0)),
        Some(Err(SocketError::CredentialsExpired))
    ));
    let no_user = vec![b"auth_date=100".to_vec(), b"hash=ab0f".to_vec()];
    assert!(check_signed_fields(&no_user, &tag, at(150, 0)).is_none());
    let far_date = vec![b"auth_date=9223372036854775807".to_vec(), b"user=x".to_vec(), b"hash=ab0f".to_vec()];
    assert!(check_signed_fields(&far_date, &tag, at(150, 0)).is_none());
}

#[test]
fn credentials_checked_at_the_current_time() {
    // signed in 2023: long expired by now
    let clock = chrono::Utc::now();
    let now = at(clock.timestamp(), clock.timestamp_subsec_nanos());
    let old = check_init_data(SIGNED_INIT_DATA, &secret(), now);
    assert!(matches!(old, Some(Err(SocketError::CredentialsExpired))));
    // signed in 2096: not expired yet
    let future = "auth_date=4000000000&user=%7B%22id%22%3A7%2C%22first_name%22%3A%22Zed%22%7D&hash=68d3c6e4ab5e13eb99a6f1df34a5f3ae6d10e462c07a8000b908df725828ddc6";
    match check_init_data(future, &secret(), now) {
        Some(Ok(user)) => assert_eq!(user, br#"{"id":7,"first_name":"Zed"}"#.to_vec()),
        _ => panic!("init data from the future is not expired"),
    }
}

#[test]
fn auth_dates_within_chronos_calendar() {
    let tag = [0xab, 0x0f];
    let check = |date: i64| {
        let fields = vec![format!("auth_date={date}").into_bytes(), b"user=x".to_vec(), b"hash=ab0f".to_vec()];
        check_signed_fields(&fields, &tag, at(MIN_TIMESTAMP_SECS, 0))
    };
    for date in [MIN_TIMESTAMP_SECS, MAX_TIMESTAMP_SECS, 0, -1] {
        assert!(check(date).is_some(), "{date}");
    }
    for date in [MIN_TIMESTAMP_SECS - 1, MAX_TIMESTAMP_SECS + 1, i64::MIN, i64::MAX] {
        assert!(check(date).is_none(), "{date}");
    }
}
