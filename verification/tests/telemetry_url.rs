//! The telemetry server's URL grammar.
use rust_cycle::telemetry_url::parse_url;
use rust_cycle::telemetry_url::UrlKey;
use rust_cycle::telemetry_url::UrlParseError;

#[test]
fn parse_url_latest() {
    assert_eq!(parse_url("/workouts/latest.fit"), Ok(("", UrlKey::Latest)))
}

#[test]
fn parse_url_key() {
    assert_eq!(parse_url("/workouts/1234.fit"), Ok(("", UrlKey::Key(1234))))
}

#[test]
fn parse_url_key_range() {
    assert_eq!(
        parse_url("/workouts/1234-9382.fit"),
        Ok(("", UrlKey::KeyRange((1234, 9382))))
    )
}

#[test]
fn parse_url_keeps_the_remainder() {
    assert_eq!(
        parse_url("/workouts/latest.fitness"),
        Ok(("ness", UrlKey::Latest))
    )
}

#[test]
fn parse_url_rejects_other_paths() {
    assert_eq!(parse_url("/sessions/latest.fit"), Err(UrlParseError));
    assert_eq!(parse_url("/workouts/latest"), Err(UrlParseError));
    assert_eq!(parse_url("/workouts/.fit"), Err(UrlParseError));
    assert_eq!(parse_url("/workouts/12-.fit"), Err(UrlParseError));
    assert_eq!(parse_url(""), Err(UrlParseError));
}

#[test]
fn parse_url_rejects_keys_past_the_64_bit_range() {
    assert_eq!(
        parse_url("/workouts/18446744073709551615.fit"),
        Ok(("", UrlKey::Key(18446744073709551615)))
    );
    assert_eq!(
        parse_url("/workouts/18446744073709551616.fit"),
        Err(UrlParseError)
    );
}
