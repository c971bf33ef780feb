//! URL rules: crawl eligibility, priorities, domains, and query building.

use ratcrawler::urls::{
    bing_backlink_query_url, calculate_url_priority, domain_seed_urls, extract_domain,
    is_crawlable_url, robots_url_for, same_host, unique_domain_seeds,
};

#[test]
fn crawlable_urls_are_http_pages() {
    assert!(is_crawlable_url("http://a.test/page"));
    assert!(is_crawlable_url("https://a.test/"));
    assert!(!is_crawlable_url("ftp://a.test/file"));
    assert!(!is_crawlable_url("mailto:someone@a.test"));
    assert!(!is_crawlable_url("not a url"));
}

#[test]
fn blocked_file_types_are_skipped() {
    assert!(!is_crawlable_url("http://a.test/report.pdf"));
    assert!(!is_crawlable_url("http://a.test/a/b/archive.tar.gz"));
    // extension matching is case-sensitive, as the rules spell the list
    assert!(is_crawlable_url("http://a.test/image.JPG"));
    assert!(!is_crawlable_url("http://a.test/style.css"));
    assert!(is_crawlable_url("http://a.test/pdf"));
    assert!(is_crawlable_url("http://a.test/report.pdf/view"));
}

#[test]
fn domains_and_hosts() {
    assert_eq!(extract_domain("http://a.test/x").unwrap(), "a.test");
    assert!(extract_domain(":// nope").is_none());
    assert!(same_host("http://a.test/x", "https://a.test/y"));
    assert!(!same_host("http://a.test/x", "http://b.test/x"));
    // full hostname comparison: subdomains are different domains
    assert!(!same_host("http://a.example.com/", "http://b.example.com/"));
}

#[test]
fn priorities_reward_same_host_and_interesting_paths() {
    assert_eq!(calculate_url_priority("http://a.test/page", "http://a.test/"), 8);
    assert_eq!(calculate_url_priority("http://a.test/about", "http://a.test/"), 10);
    assert_eq!(calculate_url_priority("http://b.test/contact", "http://a.test/"), 7);
    assert_eq!(calculate_url_priority("http://b.test/page", "http://a.test/"), 5);
    assert_eq!(calculate_url_priority("http://b.test/services/x", "http://a.test/"), 7);
    // the hint must stand in the path, not elsewhere in the URL
    assert_eq!(calculate_url_priority("http://b.test/x?go=/about", "http://a.test/"), 5);
    assert_eq!(calculate_url_priority("not a url", "http://a.test/"), 5);
}

#[test]
fn unique_domain_seeds_keep_one_url_per_host() {
    let urls = vec![
        "http://a.test/deep/page".to_string(),
        "https://a.test/other".to_string(),
        "not a url".to_string(),
        "https://b.test/x".to_string(),
    ];
    assert_eq!(
        unique_domain_seeds(&urls),
        vec!["http://a.test".to_string(), "https://b.test".to_string()]
    );
    assert_eq!(unique_domain_seeds(&Vec::new()).len(), 0);
}

#[test]
fn robots_location_is_at_the_origin() {
    assert_eq!(robots_url_for("http://a.test/deep/path?x=1").unwrap(), "http://a.test/robots.txt");
    assert_eq!(
        robots_url_for("https://a.test:8443/x").unwrap(),
        "https://a.test:8443/robots.txt"
    );
    assert!(robots_url_for("nope").is_none());
}

#[test]
fn search_query_urls() {
    assert_eq!(
        ratcrawler::urls::google_backlink_query_url("http://t.test/"),
        "https://www.google.com/search?q=link%3Ahttp%3A%2F%2Ft.test%2F&num=100"
    );
    assert_eq!(
        bing_backlink_query_url("http://t.test/"),
        "https://www.bing.com/search?q=linkfromdomain%3Ahttp%3A%2F%2Ft.test%2F&count=50"
    );
}

#[test]
fn domain_seeds_cover_both_schemes() {
    let seeds = domain_seed_urls("a.test");
    assert_eq!(
        seeds,
        vec![
            "https://a.test".to_string(),
            "https://a.test/".to_string(),
            "http://a.test".to_string(),
            "http://a.test/".to_string(),
        ]
    );
}
