use douyin_dl::json_value::JsonVal;
use douyin_dl::resolver::{
    api_url_for, extract_asset_urls, extract_id, finish_resolution, ResolveError,
};

fn mock_body() -> String {
    String::from(
        "{\"item_list\":[{\"video\":{\"origin_cover\":{\"url_list\":[\"http://cover.example/c.jpeg\"]},\
         \"play_addr\":{\"url_list\":[\"http://video.example/v.mp4\"]}},\
         \"music\":{\"play_url\":{\"url_list\":[\"http://music.example/m.m4a\"]}}}]}",
    )
}

#[test]
fn extract_id_returns_the_digits() {
    let url = "https://www.iesdouyin.com/share/video/1234567890123456789?foo=bar";
    assert_eq!(extract_id(url), "1234567890123456789");
}

#[test]
fn extract_id_takes_the_leftmost_segment() {
    assert_eq!(extract_id("a/12?x/345?y"), "12");
}

#[test]
fn extract_id_without_pattern_is_empty() {
    // Known weak point of the legacy flow: a canonical URL without the
    // pattern silently yields an empty identifier.
    assert_eq!(extract_id("https://example.com/share/video/abc"), "");
}

#[test]
fn extract_id_needs_at_least_one_digit() {
    assert_eq!(extract_id("https://example.com/?q=1"), "");
}

#[test]
fn extract_id_needs_the_question_mark() {
    assert_eq!(extract_id("https://example.com/12345/rest"), "");
}

#[test]
fn api_url_embeds_the_identifier() {
    assert_eq!(
        api_url_for("42"),
        "https://www.iesdouyin.com/web/api/v2/aweme/iteminfo/?item_ids=42"
    );
}

#[test]
fn resolution_extracts_the_three_urls_verbatim() {
    let link = finish_resolution("1234567890123456789", &mock_body()).unwrap();
    assert_eq!(link.aweme_id, "1234567890123456789");
    assert_eq!(link.cover_url, "http://cover.example/c.jpeg");
    assert_eq!(link.music_url, "http://music.example/m.m4a");
    assert_eq!(link.video_url, "http://video.example/v.mp4");
}

#[test]
fn resolution_fails_fast_on_an_empty_identifier() {
    assert_eq!(
        finish_resolution("", &mock_body()).unwrap_err(),
        ResolveError::IdNotFound
    );
}

#[test]
fn resolution_rejects_a_malformed_body() {
    assert_eq!(
        finish_resolution("42", "not json at all {").unwrap_err(),
        ResolveError::InvalidJson
    );
}

#[test]
fn resolution_rejects_a_body_without_the_expected_fields() {
    assert_eq!(
        finish_resolution("42", "{\"item_list\":[]}").unwrap_err(),
        ResolveError::MissingField
    );
    assert_eq!(
        finish_resolution("42", "{\"status_code\":2}").unwrap_err(),
        ResolveError::MissingField
    );
}

#[test]
fn resolution_rejects_an_empty_url() {
    let body = "{\"item_list\":[{\"video\":{\"origin_cover\":{\"url_list\":[\"\"]},\
                \"play_addr\":{\"url_list\":[\"http://v\"]}},\
                \"music\":{\"play_url\":{\"url_list\":[\"http://m\"]}}}]}";
    assert_eq!(finish_resolution("42", body).unwrap_err(), ResolveError::EmptyUrl);
}

#[test]
fn navigation_reads_a_hand_built_value() {
    let root = JsonVal::Obj(vec![(
        String::from("item_list"),
        JsonVal::Arr(vec![JsonVal::Obj(vec![
            (
                String::from("video"),
                JsonVal::Obj(vec![
                    (
                        String::from("origin_cover"),
                        JsonVal::Obj(vec![(
                            String::from("url_list"),
                            JsonVal::Arr(vec![JsonVal::Str(String::from("c"))]),
                        )]),
                    ),
                    (
                        String::from("play_addr"),
                        JsonVal::Obj(vec![(
                            String::from("url_list"),
                            JsonVal::Arr(vec![JsonVal::Str(String::from("v"))]),
                        )]),
                    ),
                ]),
            ),
            (
                String::from("music"),
                JsonVal::Obj(vec![(
                    String::from("play_url"),
                    JsonVal::Obj(vec![(
                        String::from("url_list"),
                        JsonVal::Arr(vec![JsonVal::Str(String::from("m"))]),
                    )]),
                )]),
            ),
        ])]),
    )]);
    let urls = extract_asset_urls(&root).unwrap();
    assert_eq!(urls.cover_url, "c");
    assert_eq!(urls.music_url, "m");
    assert_eq!(urls.video_url, "v");
}

#[test]
fn navigation_reports_a_missing_section() {
    let root = JsonVal::Obj(vec![(
        String::from("item_list"),
        JsonVal::Arr(vec![JsonVal::Obj(vec![])]),
    )]);
    assert_eq!(extract_asset_urls(&root).unwrap_err(), ResolveError::MissingField);
}

#[test]
fn error_messages_name_the_cause() {
    assert_eq!(
        ResolveError::IdNotFound.message(),
        "no media identifier in the canonical URL"
    );
    assert_eq!(
        ResolveError::InvalidJson.message(),
        "metadata body is not well-formed JSON"
    );
}
