use opencode2api::search::client::{
    provider_chain, scraper_redirect_stays_on_origin, scraper_redirect_verdict, search_reply,
    AttemptOutcome, ChainStep, SearchChain, UrlOrigin,
};
use opencode2api::search::duckduckgo;
use opencode2api::search::types::{
    format_search_context, SearchError, SearchErrorKind, SearchPolicy, SearchProviderKind,
    SearchQuery, SearchResult,
};
use opencode2api::search::util::{strip_html_tags, truncate_chars, url_decode, urlencoding_simple};
use opencode2api::search::yahoo;

#[test]
fn search_test_search_provider_kind() {
    assert_ne!(SearchProviderKind::Tavily, SearchProviderKind::DuckDuckGo);
    assert_eq!(SearchProviderKind::Exa, SearchProviderKind::Exa);
}

#[test]
fn search_test_search_result_struct() {
    let result = SearchResult {
        title: "Test".to_string(),
        url: "https://example.com".to_string(),
        snippet: "A test snippet".to_string(),
    };
    assert_eq!(result.title, "Test");
    assert_eq!(result.url, "https://example.com");
    assert_eq!(result.snippet, "A test snippet");
}

#[test]
fn search_test_url_decode() {
    assert_eq!(url_decode("hello%20world"), "hello world");
    assert_eq!(url_decode("http%3A%2F%2Fexample.com"), "http://example.com");
    assert_eq!(url_decode("abc"), "abc");
}

#[test]
fn search_test_url_encode_basic() {
    assert_eq!(urlencoding_simple("hello world"), "hello+world");
}

#[test]
fn search_test_url_encode_special_chars() {
    assert_eq!(urlencoding_simple("a/b?c=d"), "a%2Fb%3Fc%3Dd");
}

#[test]
fn search_test_url_encode_alphanumeric() {
    assert_eq!(urlencoding_simple("abc123"), "abc123");
}

#[test]
fn search_test_url_decode_roundtrip() {
    let original = "hello%20world%20%26%20special";
    assert_eq!(url_decode(original), "hello world & special");
}

#[test]
fn search_test_strip_html_tags_basic() {
    let html = "<p>Hello <b>World</b></p>";
    assert_eq!(strip_html_tags(html), "Hello World");
}

#[test]
fn search_test_strip_html_tags_entities() {
    let html = "&quot;quoted&quot; &amp; &lt;tag&gt;";
    assert_eq!(strip_html_tags(html), "\"quoted\" & <tag>");
}

#[test]
fn search_test_strip_html_tags_nested() {
    let html = "<div><span>nested</span></div>";
    assert_eq!(strip_html_tags(html), "nested");
}

#[test]
fn search_test_strip_html_tags_no_tags() {
    assert_eq!(strip_html_tags("plain text"), "plain text");
}

#[test]
fn search_test_strip_html_tags_empty() {
    assert_eq!(strip_html_tags(""), "");
}

#[test]
fn tests_test_search_provider_kind() {
    assert_ne!(SearchProviderKind::Tavily, SearchProviderKind::DuckDuckGo);
    assert_eq!(SearchProviderKind::Exa, SearchProviderKind::Exa);
}

#[test]
fn tests_test_search_result_struct() {
    let result = SearchResult {
        title: "Test".to_string(),
        url: "https://example.com".to_string(),
        snippet: "A test snippet".to_string(),
    };
    assert_eq!(result.title, "Test");
    assert_eq!(result.url, "https://example.com");
    assert_eq!(result.snippet, "A test snippet");
}

#[test]
fn tests_test_url_decode() {
    assert_eq!(url_decode("hello%20world"), "hello world");
    assert_eq!(url_decode("http%3A%2F%2Fexample.com"), "http://example.com");
    assert_eq!(url_decode("abc"), "abc");
}

#[test]
fn tests_test_url_encode_basic() {
    assert_eq!(urlencoding_simple("hello world"), "hello+world");
}

#[test]
fn tests_test_url_encode_special_chars() {
    assert_eq!(urlencoding_simple("a/b?c=d"), "a%2Fb%3Fc%3Dd");
}

#[test]
fn tests_test_url_encode_alphanumeric() {
    assert_eq!(urlencoding_simple("abc123"), "abc123");
}

#[test]
fn tests_test_url_decode_roundtrip() {
    let original = "hello%20world%20%26%20special";
    assert_eq!(url_decode(original), "hello world & special");
}

#[test]
fn tests_test_strip_html_tags_basic() {
    let html = "<p>Hello <b>World</b></p>";
    assert_eq!(strip_html_tags(html), "Hello World");
}

#[test]
fn tests_test_strip_html_tags_entities() {
    let html = "&quot;quoted&quot; &amp; &lt;tag&gt;";
    assert_eq!(strip_html_tags(html), "\"quoted\" & <tag>");
}

#[test]
fn tests_test_strip_html_tags_nested() {
    let html = "<div><span>nested</span></div>";
    assert_eq!(strip_html_tags(html), "nested");
}

#[test]
fn tests_test_strip_html_tags_no_tags() {
    assert_eq!(strip_html_tags("plain text"), "plain text");
}

#[test]
fn tests_test_strip_html_tags_empty() {
    assert_eq!(strip_html_tags(""), "");
}

#[test]
fn test_url_decode_utf8() {
    assert_eq!(url_decode("Ti%E1%BA%BFng%20Vi%E1%BB%87t"), "Tiếng Việt");
}

#[test]
fn test_truncate_chars_is_utf8_safe() {
    let value = "ế".repeat(301);
    let truncated = truncate_chars(&value, 300);
    assert_eq!(truncated.chars().count(), 303);
    assert!(truncated.ends_with("..."));
}

#[test]
fn test_url_encode_unicode_and_reserved_characters() {
    assert_eq!(
        urlencoding_simple("Tiếng Việt"),
        "Ti%E1%BA%BFng+Vi%E1%BB%87t"
    );
    assert_eq!(urlencoding_simple("a&b=c"), "a%26b%3Dc");
    assert_eq!(urlencoding_simple(""), "");
    assert_eq!(urlencoding_simple("~-._"), "~-._");
}

#[test]
fn test_url_decode_leaves_invalid_escapes_literal() {
    assert_eq!(url_decode("100%"), "100%");
    assert_eq!(url_decode("%ZZ"), "%ZZ");
    assert_eq!(url_decode("%4"), "%4");
    assert_eq!(url_decode("a+b"), "a+b");
}

#[test]
fn query_bounds_are_char_counted_and_result_cap_clamped() {
    assert!(SearchQuery::new("ế".repeat(1024), 5).is_ok());
    assert!(SearchQuery::new("ế".repeat(1025), 5).is_err());
    assert_eq!(SearchQuery::new("q".to_string(), 0).unwrap().max_results, 1);
    assert_eq!(SearchQuery::new("q".to_string(), 999).unwrap().max_results, 20);
}

#[test]
fn chain_budget_has_sane_default_and_typed_display() {
    let policy = SearchPolicy::default();
    assert!(
        policy.chain_budget_secs >= 20 && policy.chain_budget_secs <= 25,
        "chain budget default should sit in the 20-25s band, got {}s",
        policy.chain_budget_secs
    );
    assert_eq!(
        SearchErrorKind::BudgetExhausted.to_string(),
        "budget exhausted"
    );
}

#[test]
fn query_validation_is_bounded() {
    assert!(SearchQuery::new("  rust async  ".to_string(), 5).is_ok());
    assert!(SearchQuery::new("   ".to_string(), 5).is_err());
    assert!(SearchQuery::new("x".repeat(1025), 5).is_err());
}

#[test]
fn result_normalization_rejects_non_http_urls_and_bounds_text() {
    assert!(SearchResult::normalized("x", "file:///etc/passwd", "body", 10).is_none());
    let result = SearchResult::normalized(
        "  A   title ",
        "https://example.com",
        "một   đoạn   mô tả rất dài",
        8,
    )
    .unwrap();
    assert_eq!(result.title, "A title");
    assert_eq!(result.snippet.chars().count(), 8);
}

#[test]
fn parses_local_fixture_without_network() {
    let html = r#"
        <div class="result__body">
          <a class="result__a" href="//duckduckgo.com/l/?uddg=https%3A%2F%2Fexample.com%2Frust">Rust &amp; Safety</a>
          <a class="result__snippet" href="//duckduckgo.com/l/?uddg=https%3A%2F%2Fexample.com%2Frust">Một <b>đoạn</b> mô tả</a>
        </div>
        "#;
    let results = duckduckgo::parse_html(html, &SearchPolicy::default());
    assert_eq!(results.len(), 1);
    assert_eq!(results[0].url, "https://example.com/rust");
    assert_eq!(results[0].title, "Rust & Safety");
    assert_eq!(results[0].snippet, "Một đoạn mô tả");
}

#[test]
fn empty_fixture_returns_no_structured_results() {
    assert!(duckduckgo::parse_html("<html>empty</html>", &SearchPolicy::default()).is_empty());
}

#[test]
fn hostile_html_never_panics_or_loops() {
    let policy = SearchPolicy::default();
    let padded_multibyte = format!("ế{}ế", "result__body".repeat(50));
    let hostile = [
        "result__body",
        "result__body result__body",
        "<a class=\"result__a\"",
        "<a class=\"result__a\" href=",
        "<div class=\"result__body\"><a class=\"result__a\" href=\"x\">tiếng",
        "result__snippet</a>",
        "<a class=\"result__snippet\">no close",
        padded_multibyte.as_str(),
    ];
    for input in hostile {
        let results = duckduckgo::parse_html(input, &policy);
        assert!(results.len() <= policy.max_results);
    }
}

#[test]
fn parses_yahoo_result_and_decodes_target_url() {
    let html = r#"
        <ol><li><div class="dd algo algo-sr">
          <div class="compTitle"><a data-matarget="algo" href="https://r.search.yahoo.com/x/RU=https%3a%2f%2fdocs.example.com%2fdocs%2fen%2fsecurity/RK=2/RS=x"><h3><span>Security - Example Code Docs</span></h3></a></div>
          <div class="compText aAbs"><p>Learn about <b>security</b> safeguards.</p></div>
        </div></li></ol>
        "#;
    let results = yahoo::parse_html(html, &SearchPolicy::default());
    assert_eq!(results.len(), 1);
    assert_eq!(results[0].url, "https://docs.example.com/docs/en/security");
    assert_eq!(results[0].title, "Security - Example Code Docs");
    assert_eq!(results[0].snippet, "Learn about security safeguards.");
}

#[test]
fn captcha_page_returns_no_results() {
    assert!(yahoo::parse_html(
        "<div class=\"captcha_header\">Verify</div>",
        &SearchPolicy::default()
    )
    .is_empty());
}

fn hop(from: &str, to: &str) -> bool {
    scraper_redirect_stays_on_origin(
        &UrlOrigin::parse(from).unwrap(),
        &UrlOrigin::parse(to).unwrap(),
    )
}

#[test]
fn canonical_upgrade_moves_between_default_ports_only() {
    assert!(hop("http://search.example/a", "https://search.example/b"));
    assert!(hop(
        "http://search.example:80/a",
        "https://search.example/b"
    ));
    assert!(hop(
        "http://search.example/a",
        "https://search.example:443/b"
    ));
}

#[test]
fn upgrade_with_unchanged_port_is_followed() {
    assert!(hop(
        "http://search.example:8443/a",
        "https://search.example:8443/b"
    ));
}

#[test]
fn upgrade_to_a_foreign_port_is_blocked() {
    assert!(!hop(
        "http://search.example:80/a",
        "https://search.example:8443/b"
    ));
    assert!(!hop(
        "http://search.example:8080/a",
        "https://search.example:9443/b"
    ));
    assert!(!hop(
        "http://search.example:8080/a",
        "https://search.example/b"
    ));
}

#[test]
fn redirects_never_leave_the_host_or_downgrade() {
    assert!(!hop("https://search.example/a", "https://other.example/b"));
    assert!(!hop("https://search.example/a", "http://search.example/b"));
    assert!(hop("https://search.example/a", "https://search.example/b"));
}

#[test]
fn redirect_hop_limit_and_missing_origin_are_refused() {
    let a = UrlOrigin::parse("https://search.example/a").unwrap();
    let b = UrlOrigin::parse("https://search.example/b").unwrap();
    assert_eq!(scraper_redirect_verdict(0, Some(&a), &b), Ok(()));
    assert_eq!(
        scraper_redirect_verdict(3, Some(&a), &b),
        Err("search scraper exceeded redirect hop limit")
    );
    assert_eq!(
        scraper_redirect_verdict(1, None, &b),
        Err("redirect without recorded origin")
    );
    assert!(UrlOrigin::parse("not a url").is_none());
    assert_eq!(a.port, Some(443));
    assert_eq!(a.host.as_deref(), Some("search.example"));
}

#[test]
fn provider_chain_puts_keyed_providers_before_scrapers() {
    assert_eq!(
        provider_chain(false, false, false, false),
        vec![SearchProviderKind::DuckDuckGo, SearchProviderKind::Yahoo]
    );
    assert_eq!(
        provider_chain(true, false, true, true),
        vec![
            SearchProviderKind::Tavily,
            SearchProviderKind::Serper,
            SearchProviderKind::SearXng,
            SearchProviderKind::DuckDuckGo,
            SearchProviderKind::Yahoo
        ]
    );
}

fn result(title: &str) -> SearchResult {
    SearchResult {
        title: title.to_string(),
        url: "https://example.com".to_string(),
        snippet: "s".to_string(),
    }
}

#[test]
fn chain_falls_through_empty_and_failed_providers_to_results() {
    let mut chain = SearchChain::new(provider_chain(true, false, false, false), 22, 1_000);
    match chain.next_step(1_000) {
        ChainStep::Attempt { provider, remaining_ms } => {
            assert_eq!(provider, SearchProviderKind::Tavily);
            assert_eq!(remaining_ms, 22_000);
        }
        ChainStep::Finished(_) => panic!("expected an attempt"),
    }
    assert!(chain
        .record(
            SearchProviderKind::Tavily,
            AttemptOutcome::Failed(SearchError::new(
                SearchProviderKind::Tavily,
                SearchErrorKind::Transport,
                "down".to_string()
            ))
        )
        .is_none());
    match chain.next_step(2_000) {
        ChainStep::Attempt { provider, remaining_ms } => {
            assert_eq!(provider, SearchProviderKind::DuckDuckGo);
            assert_eq!(remaining_ms, 21_000);
        }
        ChainStep::Finished(_) => panic!("expected an attempt"),
    }
    assert!(chain
        .record(SearchProviderKind::DuckDuckGo, AttemptOutcome::Answered(Vec::new()))
        .is_none());
    let _ = chain.next_step(3_000);
    let answer = chain.record(
        SearchProviderKind::Yahoo,
        AttemptOutcome::Answered(vec![result("found")]),
    );
    assert_eq!(answer.unwrap()[0].title, "found");
}

#[test]
fn chain_ends_with_the_last_error_once_the_budget_is_spent() {
    let mut chain = SearchChain::new(provider_chain(false, false, false, false), 1, 0);
    let _ = chain.next_step(0);
    assert!(chain
        .record(SearchProviderKind::DuckDuckGo, AttemptOutcome::DeadlineHit)
        .is_none());
    match chain.next_step(1_001) {
        ChainStep::Finished(Err(error)) => {
            assert_eq!(error.provider, SearchProviderKind::DuckDuckGo);
            assert_eq!(error.kind, SearchErrorKind::BudgetExhausted);
            assert_eq!(
                error.message,
                "chain budget of 1s exhausted before a response arrived"
            );
        }
        _ => panic!("expected the chain to end"),
    }
}

#[test]
fn chain_without_any_attempt_reports_budget_exhaustion() {
    let mut chain = SearchChain::new(provider_chain(false, false, false, false), 0, 0);
    match chain.next_step(5) {
        ChainStep::Finished(Err(error)) => {
            assert_eq!(
                error.message,
                "search chain budget exhausted before any provider completed"
            );
            assert_eq!(error.kind, SearchErrorKind::BudgetExhausted);
        }
        _ => panic!("expected the chain to end"),
    }
}

#[test]
fn search_reply_formats_results_and_failures() {
    let ok: Result<Vec<SearchResult>, SearchError> = Ok(vec![result("T")]);
    assert_eq!(
        search_reply(&ok),
        format_search_context(&[result("T")], "No search results found.")
    );
    let empty: Result<Vec<SearchResult>, SearchError> = Ok(Vec::new());
    assert_eq!(search_reply(&empty), "No search results found.");
    let failed: Result<Vec<SearchResult>, SearchError> = Err(SearchError::new(
        SearchProviderKind::Yahoo,
        SearchErrorKind::NoResults,
        "provider returned no results".to_string(),
    ));
    assert_eq!(
        search_reply(&failed),
        format!("Web search failed: {}", failed.as_ref().unwrap_err().to_string())
    );
}

#[test]
fn decoding_undoes_form_encoding_without_spaces() {
    for query in ["a/b?c=d&e", "caf\u{e9}-\u{4e16}\u{754c}", "100%~_.", ""] {
        assert_eq!(url_decode(&urlencoding_simple(query)), query);
    }
    assert_eq!(url_decode(&urlencoding_simple("two words")), "two+words");
}
