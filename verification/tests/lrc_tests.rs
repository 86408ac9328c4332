use lyrics_lrc::decode::decode_body;
use lyrics_lrc::lyrics::{Line, Lyrics};
use lyrics_lrc::json::{parse_json, take_field, Json};
use lyrics_lrc::numbers::parse_i64;
use lyrics_lrc::pipeline::{lyrics_body_to_lrc, process_response, LyricsError};
use lyrics_lrc::render::format_lrc;
use lyrics_lrc::request::{auth_header_value, lyrics_url};
use lyrics_lrc::timefmt::{format_timestamp, wrap_to_day};

fn line_json(st: &str, words: &str, et: &str) -> String {
    format!(
        "{{\"startTimeMs\":\"{}\",\"words\":\"{}\",\"syllables\":[],\"endTimeMs\":\"{}\"}}",
        st, words, et
    )
}

fn body_with_lines(lines_json: &str) -> String {
    format!(
        "{{\"lyrics\":{{\"syncType\":\"LINE_SYNCED\",\"lines\":{},\"provider\":\"p\",\"providerLyricsId\":\"plid\",\"providerDisplayName\":\"pdn\",\"syncLyricsUri\":\"uri\",\"isDenseTypeface\":false,\"alternatives\":[\"alt\"],\"language\":\"en\",\"isRtlLanguage\":false,\"capStatus\":\"NONE\",\"previewLines\":[]}}}}",
        lines_json
    )
}

#[test]
fn timestamp_of_61234_ms() {
    assert_eq!(format_timestamp(61234).as_str(), "[01:01.234]");
}

#[test]
fn timestamp_of_zero() {
    assert_eq!(format_timestamp(0).as_str(), "[00:00.000]");
}

#[test]
fn timestamp_drops_the_hour() {
    assert_eq!(format_timestamp(3_661_000).as_str(), "[01:01.000]");
    assert_eq!(format_timestamp(86_399_999).as_str(), "[59:59.999]");
}

#[test]
fn parse_i64_accepts_plain_numerals() {
    assert_eq!(parse_i64("61234"), Some(61234));
    assert_eq!(parse_i64("0"), Some(0));
    assert_eq!(parse_i64("007"), Some(7));
    assert_eq!(parse_i64("+5"), Some(5));
    assert_eq!(parse_i64("-5"), Some(-5));
    assert_eq!(parse_i64("9223372036854775807"), Some(i64::MAX));
    assert_eq!(parse_i64("-9223372036854775808"), Some(i64::MIN));
}

#[test]
fn parse_i64_rejects_everything_else() {
    assert_eq!(parse_i64(""), None);
    assert_eq!(parse_i64("+"), None);
    assert_eq!(parse_i64("-"), None);
    assert_eq!(parse_i64("12x"), None);
    assert_eq!(parse_i64(" 12"), None);
    assert_eq!(parse_i64("1.5"), None);
    assert_eq!(parse_i64("9223372036854775808"), None);
    assert_eq!(parse_i64("-9223372036854775809"), None);
    assert_eq!(parse_i64("99999999999999999999999"), None);
}

#[test]
fn wrap_to_day_matches_euclidean_remainder() {
    assert_eq!(wrap_to_day(0), 0);
    assert_eq!(wrap_to_day(86_399_999), 86_399_999);
    assert_eq!(wrap_to_day(86_400_000), 0);
    assert_eq!(wrap_to_day(86_400_001), 1);
    assert_eq!(wrap_to_day(-1), 86_399_999);
    assert_eq!(wrap_to_day(-86_400_000), 0);
    let want = ((i64::MIN as i128).rem_euclid(86_400_000)) as u64;
    assert_eq!(wrap_to_day(i64::MIN), want);
    let want_max = ((i64::MAX as i128).rem_euclid(86_400_000)) as u64;
    assert_eq!(wrap_to_day(i64::MAX), want_max);
}

#[test]
fn two_lines_render_exactly() {
    let lines = format!("[{},{}]", line_json("0", "a", "100"), line_json("1000", "b", "1100"));
    let body = body_with_lines(&lines);
    let out = lyrics_body_to_lrc(&body).unwrap();
    assert_eq!(out, "[00:00.000]a\n[00:01.000]b");
}

#[test]
fn prefix_of_61234_ms_line() {
    let lines = format!("[{}]", line_json("61234", "hello", "62000"));
    let body = body_with_lines(&lines);
    let out = lyrics_body_to_lrc(&body).unwrap();
    assert!(out.starts_with("[01:01.234]"));
    assert_eq!(out, "[01:01.234]hello");
}

#[test]
fn one_output_line_per_input_line() {
    let lines = format!(
        "[{},{},{}]",
        line_json("0", "first", "1"),
        line_json("2000", "second", "2001"),
        line_json("4000", "third", "4001")
    );
    let body = body_with_lines(&lines);
    let out = lyrics_body_to_lrc(&body).unwrap();
    let parts: Vec<&str> = out.split('\n').collect();
    assert_eq!(parts.len(), 3);
    assert_eq!(parts[0], "[00:00.000]first");
    assert_eq!(parts[1], "[00:02.000]second");
    assert_eq!(parts[2], "[00:04.000]third");
    for part in parts {
        assert!(part.starts_with('['));
    }
}

#[test]
fn empty_lines_render_empty() {
    let body = body_with_lines("[]");
    let out = lyrics_body_to_lrc(&body).unwrap();
    assert_eq!(out, "");
}

#[test]
fn negative_time_wraps_backwards_from_midnight() {
    let lines = format!("[{}]", line_json("-1000", "late", "0"));
    let body = body_with_lines(&lines);
    let out = lyrics_body_to_lrc(&body).unwrap();
    assert_eq!(out, "[59:59.000]late");
}

#[test]
fn missing_lyrics_key_is_structural() {
    assert_eq!(lyrics_body_to_lrc("{\"foo\": 1}"), Err(LyricsError::Structure));
    assert_eq!(lyrics_body_to_lrc("{}"), Err(LyricsError::Structure));
    assert_eq!(lyrics_body_to_lrc("[1, 2]"), Err(LyricsError::Structure));
    assert_eq!(lyrics_body_to_lrc("3"), Err(LyricsError::Structure));
    assert_eq!(lyrics_body_to_lrc("null"), Err(LyricsError::Structure));
}

#[test]
fn invalid_json_is_its_own_failure() {
    assert_eq!(lyrics_body_to_lrc("nope"), Err(LyricsError::BodyNotJson));
    assert_eq!(lyrics_body_to_lrc(""), Err(LyricsError::BodyNotJson));
    assert_eq!(lyrics_body_to_lrc("{\"lyrics\":"), Err(LyricsError::BodyNotJson));
}

#[test]
fn missing_field_is_structural() {
    let no_words =
        "{\"startTimeMs\":\"0\",\"syllables\":[],\"endTimeMs\":\"1\"}";
    let body = body_with_lines(&format!("[{}]", no_words));
    assert_eq!(lyrics_body_to_lrc(&body), Err(LyricsError::Structure));
}

#[test]
fn non_string_time_is_structural() {
    let numeric_time =
        "{\"startTimeMs\":0,\"words\":\"a\",\"syllables\":[],\"endTimeMs\":\"1\"}";
    let body = body_with_lines(&format!("[{}]", numeric_time));
    assert_eq!(lyrics_body_to_lrc(&body), Err(LyricsError::Structure));
}

#[test]
fn malformed_time_string_is_structural() {
    let bad_time = line_json("12x", "a", "1");
    let body = body_with_lines(&format!("[{}]", bad_time));
    assert_eq!(lyrics_body_to_lrc(&body), Err(LyricsError::Structure));
    let huge_time = line_json("99999999999999999999", "a", "1");
    let body2 = body_with_lines(&format!("[{}]", huge_time));
    assert_eq!(lyrics_body_to_lrc(&body2), Err(LyricsError::Structure));
}

#[test]
fn status_404_fails_before_the_body_is_read() {
    let body = body_with_lines(&format!("[{}]", line_json("0", "a", "1")));
    assert_eq!(process_response(404, &body), Err(LyricsError::BadStatus(404)));
    assert_eq!(process_response(404, "nope"), Err(LyricsError::BadStatus(404)));
}

#[test]
fn status_bounds_of_success() {
    let body = body_with_lines(&format!("[{}]", line_json("0", "a", "1")));
    assert!(process_response(200, &body).is_ok());
    assert!(process_response(299, &body).is_ok());
    assert_eq!(process_response(199, &body), Err(LyricsError::BadStatus(199)));
    assert_eq!(process_response(300, &body), Err(LyricsError::BadStatus(300)));
    assert_eq!(process_response(500, &body), Err(LyricsError::BadStatus(500)));
}

#[test]
fn decoded_payload_keeps_every_field() {
    let lines = format!("[{}]", line_json("500", "a", "900"));
    let body = body_with_lines(&lines);
    let json = parse_json(&body).unwrap();
    let lyrics = decode_body(json).unwrap();
    assert_eq!(lyrics.sync_type, "LINE_SYNCED");
    assert_eq!(lyrics.provider, "p");
    assert_eq!(lyrics.provider_lyrics_id, "plid");
    assert_eq!(lyrics.provider_display_name, "pdn");
    assert_eq!(lyrics.sync_lyrics_uri, "uri");
    assert!(!lyrics.is_dense_typeface);
    assert_eq!(lyrics.alternatives, vec!["alt".to_string()]);
    assert_eq!(lyrics.language, "en");
    assert!(!lyrics.is_rtl_language);
    assert_eq!(lyrics.cap_status, "NONE");
    assert_eq!(lyrics.preview_lines.len(), 0);
    assert_eq!(lyrics.lines.len(), 1);
    assert_eq!(lyrics.lines[0].start_time_ms, 500);
    assert_eq!(lyrics.lines[0].end_time_ms, 900);
    assert_eq!(lyrics.lines[0].words, "a");
    assert_eq!(lyrics.lines[0].syllables.len(), 0);
}

#[test]
fn parse_json_reads_the_document() {
    let j = parse_json("{\"a\": 1}").unwrap();
    match j {
        Json::Obj(fields) => {
            assert_eq!(fields.len(), 1);
            assert_eq!(fields[0].0, "a");
            assert!(matches!(fields[0].1, Json::Int(1)));
        }
        _ => panic!("expected an object"),
    }
    assert!(parse_json("}{").is_none());
}

#[test]
fn take_field_removes_only_its_key() {
    let mut fields = vec![
        ("a".to_string(), Json::Int(1)),
        ("b".to_string(), Json::Int(2)),
        ("c".to_string(), Json::Int(3)),
    ];
    let got = take_field(&mut fields, "b");
    assert!(matches!(got, Some(Json::Int(2))));
    assert_eq!(fields.len(), 2);
    assert_eq!(fields[0].0, "a");
    assert_eq!(fields[1].0, "c");
    assert!(take_field(&mut fields, "b").is_none());
}

#[test]
fn url_and_header_are_exact() {
    assert_eq!(
        lyrics_url("abc123"),
        "https://spclient.wg.spotify.com/color-lyrics/v2/track/abc123?format=json&vocalRemoval=false"
    );
    assert_eq!(auth_header_value("tok"), "Bearer tok");
}

#[test]
fn format_lrc_renders_a_built_payload() {
    let lyrics = Lyrics {
        sync_type: "LINE_SYNCED".to_string(),
        lines: vec![
            Line {
                start_time_ms: 0,
                words: "one".to_string(),
                syllables: vec![],
                end_time_ms: 1000,
            },
            Line {
                start_time_ms: 61234,
                words: "two".to_string(),
                syllables: vec![],
                end_time_ms: 62000,
            },
        ],
        provider: "p".to_string(),
        provider_lyrics_id: "plid".to_string(),
        provider_display_name: "pdn".to_string(),
        sync_lyrics_uri: "uri".to_string(),
        is_dense_typeface: false,
        alternatives: vec![],
        language: "en".to_string(),
        is_rtl_language: false,
        cap_status: "NONE".to_string(),
        preview_lines: vec![],
    };
    assert_eq!(format_lrc(&lyrics), "[00:00.000]one\n[01:01.234]two");
}

#[test]
fn failure_kinds_describe_themselves() {
    assert_eq!(LyricsError::BadStatus(404).describe(), "status code bad");
    assert_eq!(
        LyricsError::BodyNotJson.describe(),
        "response body is not valid JSON"
    );
    assert_eq!(
        LyricsError::Structure.describe(),
        "lyrics payload has an unexpected shape"
    );
}
