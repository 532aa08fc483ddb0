use howto::url::answer_url;
use howto::url::percent_encode;
use howto::url::search_url;
use howto::url::starts_with_prefix;

#[test]
fn search_url_is_site_restricted_and_encoded() {
    let u = search_url("file io rust");
    assert_eq!(
        u,
        "https://www.google.com/search?q=site%3Astackoverflow.com%20file%20io%20rust"
    );
}

#[test]
fn unreserved_characters_pass_through() {
    assert_eq!(percent_encode("AZaz09-._~"), "AZaz09-._~");
}

#[test]
fn reserved_characters_are_escaped() {
    assert_eq!(percent_encode("a+b&c=d"), "a%2Bb%26c%3Dd");
    assert_eq!(percent_encode("a b"), "a%20b");
}

#[test]
fn multibyte_characters_use_utf8_escapes() {
    assert_eq!(percent_encode("café"), "caf%C3%A9");
    // U+1F600 has a four-byte UTF-8 encoding.
    assert_eq!(percent_encode("\u{1F600}"), "%F0%9F%98%80");
}

#[test]
fn empty_query_encodes_to_empty() {
    assert_eq!(percent_encode(""), "");
}

#[test]
fn answer_url_appends_vote_sort() {
    assert_eq!(
        answer_url("https://stackoverflow.com/questions/1"),
        "https://stackoverflow.com/questions/1?answerstab=votes"
    );
}

#[test]
fn prefix_test_matches_spec() {
    assert!(starts_with_prefix(
        "https://stackoverflow.com/questions/1",
        "https://stackoverflow.com/"
    ));
    assert!(!starts_with_prefix(
        "https://example.com/x",
        "https://stackoverflow.com/"
    ));
    assert!(!starts_with_prefix("http", "https://stackoverflow.com/"));
}
