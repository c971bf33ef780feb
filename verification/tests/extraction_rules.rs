//! HTML extraction: metadata, text, hashing, links and their
//! classification.

use ratcrawler::extract::{
    calculate_content_hash, count_internal_links, count_words, detect_charset_from_headers,
    detect_language, extract_canonical_url, extract_h1_tags, extract_h2_tags, extract_links,
    extract_meta_description, extract_meta_keywords, extract_robots_meta, extract_text_content,
    extract_title,
};

const PAGE: &str = "<html lang=\"de\"><head>\
<title>  Welcome Home  </title>\
<meta name=\"description\" content=\" A fine page \">\
<meta name=\"keywords\" content=\"alpha, beta , ,gamma\">\
<meta name=\"robots\" content=\"noindex,nofollow\">\
<link rel=\"canonical\" href=\"http://a.test/canonical\">\
</head><body>\
<h1> First </h1><h1>  </h1><h2>Second</h2>\
<p>Some   body text
here</p>\
<img src=\"x.png\"><img src=\"y.png\">\
<a href=\"/about\">About</a>\
<a href=\"http://b.test/x\">Other</a>\
<a href=\"/file.pdf\">Doc</a>\
</body></html>";

#[test]
fn titles_and_meta_are_trimmed() {
    assert_eq!(extract_title(PAGE), "Welcome Home");
    assert_eq!(extract_meta_description(PAGE), "A fine page");
    assert_eq!(extract_robots_meta(PAGE), "noindex,nofollow");
    assert_eq!(extract_canonical_url(PAGE), "http://a.test/canonical");
    assert_eq!(extract_title("<html><body>no title</body></html>"), "");
}

#[test]
fn keywords_split_on_commas_and_drop_empties() {
    assert_eq!(
        extract_meta_keywords(PAGE),
        vec!["alpha".to_string(), "beta".to_string(), "gamma".to_string()]
    );
    assert_eq!(extract_meta_keywords("<html></html>").len(), 0);
}

#[test]
fn headings_are_trimmed_and_empties_dropped() {
    assert_eq!(extract_h1_tags(PAGE), vec!["First".to_string()]);
    assert_eq!(extract_h2_tags(PAGE), vec!["Second".to_string()]);
}

#[test]
fn language_defaults_to_english() {
    assert_eq!(detect_language(PAGE), "de");
    assert_eq!(detect_language("<html><body></body></html>"), "en");
}

#[test]
fn charset_comes_from_the_content_type_header() {
    assert_eq!(detect_charset_from_headers("text/html; charset=ISO-8859-1"), "ISO-8859-1");
    assert_eq!(detect_charset_from_headers("text/html"), "utf-8");
    assert_eq!(detect_charset_from_headers(""), "utf-8");
}

#[test]
fn body_text_is_collapsed_and_counted() {
    let text = extract_text_content(PAGE);
    assert!(text.contains("Some body text here"));
    assert_eq!(count_words("one  two\nthree"), 3);
    assert_eq!(count_words(""), 0);
}

#[test]
fn images_are_counted() {
    let (page, _) = ratcrawler::engine::build_page_record(
        "http://a.test/",
        "http://a.test/",
        200,
        PAGE,
        "text/html",
        1,
        2,
    );
    assert_eq!(page.images_count, 2);
}

#[test]
fn content_hash_is_deterministic_and_64_hex_chars() {
    let h1 = calculate_content_hash("hello");
    let h2 = calculate_content_hash("hello");
    let h3 = calculate_content_hash("hello!");
    assert_eq!(h1, h2);
    assert_ne!(h1, h3);
    assert_eq!(h1.len(), 64);
    assert!(h1.chars().all(|c| c.is_ascii_hexdigit() && !c.is_ascii_uppercase()));
    // the well-known digest of the empty string
    assert_eq!(
        calculate_content_hash(""),
        "e3b0c44298fc1c149afbf4c8996fb92427ae41e4649b934ca495991b7852b855"
    );
}

#[test]
fn links_resolve_against_the_base_and_skip_blocked_types() {
    let links = extract_links(PAGE, "http://a.test/");
    assert_eq!(
        links,
        vec!["http://a.test/about".to_string(), "http://b.test/x".to_string()]
    );
    assert_eq!(count_internal_links(&links, "http://a.test/"), 1);
    assert_eq!(count_internal_links(&links, "not a url"), 0);
}
