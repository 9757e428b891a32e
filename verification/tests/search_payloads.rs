use opencode2api::search::fetch::{
    append_chunk, check_declared_length, invalid_json, request_error, searxng_search_url,
    status_failure, text_body,
};
use opencode2api::search::payload::{
    parse_listing, parse_serper, AnswerBox, JsonText, ListingItem, SerperPayload,
};
use opencode2api::search::types::{SearchErrorKind, SearchPolicy, SearchProviderKind};

fn item(title: &str, url: &str, text: &str) -> ListingItem {
    ListingItem {
        title: Some(title.to_string()),
        url: Some(url.to_string()),
        text: Some(text.to_string()),
        highlights: None,
    }
}

#[test]
fn parses_fixture_and_bounds_results() {
    let items = Some(vec![
        item("Rust", "https://example.com/rust", "safe systems language"),
        item("Bad", "file:///etc/passwd", "bad"),
    ]);
    let results = parse_listing(SearchProviderKind::Tavily, &items, &SearchPolicy::default()).unwrap();
    assert_eq!(results.len(), 1);
    assert_eq!(results[0].title, "Rust");
}

#[test]
fn rejects_missing_results_array() {
    assert_eq!(
        parse_listing(SearchProviderKind::Tavily, &None, &SearchPolicy::default())
            .unwrap_err()
            .kind,
        SearchErrorKind::MalformedResponse
    );
}

#[test]
fn highlights_take_precedence_and_are_utf8_bounded() {
    let items = Some(vec![ListingItem {
        title: Some("Tiếng Việt".to_string()),
        url: Some("https://example.com/vi".to_string()),
        text: Some("fallback".to_string()),
        highlights: Some(vec![
            Some("một đoạn mô tả".to_string()),
            Some("nhiều ký tự".to_string()),
        ]),
    }]);
    let policy = SearchPolicy {
        max_snippet_chars: 12,
        ..Default::default()
    };
    let results = parse_listing(SearchProviderKind::Exa, &items, &policy).unwrap();
    assert_eq!(results.len(), 1);
    assert_eq!(results[0].snippet.chars().count(), 12);
    assert!(results[0].snippet.starts_with("một đoạn"));
}

#[test]
fn rejects_malformed_payload() {
    let error = parse_listing(SearchProviderKind::Exa, &None, &SearchPolicy::default()).unwrap_err();
    assert_eq!(error.kind, SearchErrorKind::MalformedResponse);
    assert_eq!(error.message, "missing results array");
}

#[test]
fn parses_fixture() {
    let items = Some(vec![item("Local result", "https://example.com/local", "snippet")]);
    let results = parse_listing(SearchProviderKind::SearXng, &items, &SearchPolicy::default()).unwrap();
    assert_eq!(results.len(), 1);
}

#[test]
fn rejects_missing_results() {
    assert_eq!(
        parse_listing(SearchProviderKind::SearXng, &None, &SearchPolicy::default())
            .unwrap_err()
            .kind,
        SearchErrorKind::MalformedResponse
    );
}

#[test]
fn parses_answer_box_and_organic_results() {
    let payload = SerperPayload {
        is_object: true,
        answer_box: Some(AnswerBox {
            snippet: JsonText::Absent,
            answer: JsonText::Text("42".to_string()),
            link: JsonText::Text("https://example.com/answer".to_string()),
        }),
        organic: Some(vec![item("Result", "https://example.com/r", "body")]),
    };
    let results = parse_serper(&payload, &SearchPolicy::default()).unwrap();
    assert_eq!(results.len(), 2);
    assert_eq!(results[0].title, "Direct answer");
}

#[test]
fn rejects_non_object_payload() {
    let payload = SerperPayload {
        is_object: false,
        answer_box: None,
        organic: None,
    };
    assert_eq!(
        parse_serper(&payload, &SearchPolicy::default())
            .unwrap_err()
            .kind,
        SearchErrorKind::MalformedResponse
    );
}

#[test]
fn answer_box_snippet_that_is_not_text_gives_no_direct_answer() {
    let payload = SerperPayload {
        is_object: true,
        answer_box: Some(AnswerBox {
            snippet: JsonText::Other,
            answer: JsonText::Text("42".to_string()),
            link: JsonText::Absent,
        }),
        organic: None,
    };
    assert!(parse_serper(&payload, &SearchPolicy::default()).unwrap().is_empty());
}

#[test]
fn listing_results_are_capped() {
    let items = Some(
        (0..9)
            .map(|i| item("t", &format!("https://example.com/{i}"), "s"))
            .collect::<Vec<_>>(),
    );
    let policy = SearchPolicy {
        max_results: 3,
        ..Default::default()
    };
    let results = parse_listing(SearchProviderKind::Tavily, &items, &policy).unwrap();
    assert_eq!(results.len(), 3);
    assert_eq!(results[2].url, "https://example.com/2");
}

#[test]
fn response_size_is_bounded_by_header_and_body() {
    assert!(check_declared_length(SearchProviderKind::Exa, Some(10), 10).is_ok());
    let refused = check_declared_length(SearchProviderKind::Exa, Some(11), 10).unwrap_err();
    assert_eq!(refused.kind, SearchErrorKind::ResponseTooLarge);
    assert_eq!(refused.message, "response content-length exceeds 10 bytes");

    let mut body = vec![1u8, 2, 3];
    assert!(append_chunk(SearchProviderKind::Exa, &mut body, &[4, 5], 5).is_ok());
    assert_eq!(body, vec![1, 2, 3, 4, 5]);
    let error = append_chunk(SearchProviderKind::Exa, &mut body, &[6], 5).unwrap_err();
    assert_eq!(error.message, "response exceeded 5 bytes");
    assert_eq!(body.len(), 5);
}

#[test]
fn failed_status_quotes_the_start_of_the_body() {
    assert!(status_failure(SearchProviderKind::Yahoo, 200, b"ok").is_none());
    let error = status_failure(SearchProviderKind::Yahoo, 503, b"busy").unwrap();
    assert_eq!(error.kind, SearchErrorKind::HttpStatus);
    assert_eq!(error.message, "status 503 Service Unavailable: busy");
    let long = vec![b'x'; 400];
    let quoted = status_failure(SearchProviderKind::Yahoo, 500, &long).unwrap();
    assert_eq!(quoted.message.len(), "status 500 Internal Server Error: ".len() + 300);
}

#[test]
fn text_bodies_must_be_utf8() {
    assert_eq!(
        text_body(SearchProviderKind::DuckDuckGo, 200, "tiếng".as_bytes().to_vec()).unwrap(),
        "tiếng"
    );
    let error = text_body(SearchProviderKind::DuckDuckGo, 200, vec![0xff, 0xfe]).unwrap_err();
    assert_eq!(error.kind, SearchErrorKind::MalformedResponse);
    assert!(error.message.starts_with("response is not valid UTF-8: "));
}

#[test]
fn request_and_json_errors_keep_the_detail() {
    assert_eq!(
        request_error(SearchProviderKind::Serper, true, "slow".to_string()).kind,
        SearchErrorKind::Timeout
    );
    assert_eq!(
        request_error(SearchProviderKind::Serper, false, "reset".to_string()).kind,
        SearchErrorKind::Transport
    );
    assert_eq!(
        invalid_json(SearchProviderKind::Serper, "EOF").message,
        "invalid JSON response: EOF"
    );
}

#[test]
fn searxng_urls_keep_existing_query_strings() {
    assert_eq!(
        searxng_search_url("https://searx.example/", "rust lang"),
        "https://searx.example/search?q=rust+lang&format=json"
    );
    assert_eq!(
        searxng_search_url("https://searx.example/search?lang=en", "a&b"),
        "https://searx.example/search?lang=en&q=a%26b&format=json"
    );
}
