//! The crawl engine end to end: the per-page pipeline, the robots check,
//! and a whole fixture crawl driven the way the supervisor drives it.

use ratcrawler::catalog::Catalog;
use ratcrawler::engine::{build_page_record, CrawlEngine};
use ratcrawler::models::CrawlConfig;
use ratcrawler::robots::{RobotsCache, RobotsTxt};
use ratcrawler::urls::robots_url_for;

const ROOT: &str = "<html><body>\
<a href=\"/about\">About us</a>\
<a href=\"http://b.test/x\">Elsewhere</a>\
</body></html>";

const ABOUT: &str = "<html><head><title>About</title></head><body>\
<a href=\"/\">Home</a>\
</body></html>";

fn config() -> CrawlConfig {
    let mut cfg = CrawlConfig::default();
    cfg.max_depth = 1;
    cfg.max_pages = 10;
    cfg
}

#[test]
fn the_page_pipeline_fills_every_field() {
    let (page, links) = build_page_record(
        "http://a.test",
        "http://a.test/",
        200,
        ROOT,
        "text/html; charset=utf-8",
        17,
        1234,
    );
    assert_eq!(page.url, "http://a.test/");
    assert_eq!(page.original_url, "http://a.test");
    assert_eq!(page.http_status_code, 200);
    assert_eq!(page.response_time_ms, 17);
    assert_eq!(page.charset, "utf-8");
    assert_eq!(page.language, "en");
    assert_eq!(page.page_size, ROOT.len());
    assert_eq!(page.content_hash.len(), 64);
    assert_eq!(page.crawl_time, 1234);
    assert_eq!(links, vec!["http://a.test/about".to_string(), "http://b.test/x".to_string()]);
    assert_eq!(page.internal_links_count, 1);
    assert_eq!(page.external_links_count, 1);
    assert_eq!(page.word_count, 3);
}

#[test]
fn a_fixture_crawl_visits_only_its_own_site() {
    let mut catalog = Catalog::new();
    let mut engine = CrawlEngine::new(
        &mut catalog,
        vec!["http://a.test/".to_string()],
        config(),
        "{}".to_string(),
        100,
    );
    let mut fetched: Vec<String> = Vec::new();
    while let Some(entry) = engine.frontier.pop() {
        fetched.push(entry.url.clone());
        let body = match entry.url.as_str() {
            "http://a.test/" => ROOT,
            "http://a.test/about" => ABOUT,
            other => panic!("unexpected fetch of {}", other),
        };
        engine
            .record_success(
                &mut catalog,
                &entry.url,
                entry.depth,
                &entry.url,
                200,
                body,
                "text/html",
                5,
                200,
            )
            .unwrap();
    }
    // the cross-site link to b.test is counted but never traversed
    assert_eq!(fetched, vec!["http://a.test/".to_string(), "http://a.test/about".to_string()]);
    let result = engine.finish(&mut catalog, 300, 1000);
    assert_eq!(result.pages_crawled, 2);
    assert_eq!(result.errors, 0);
    assert_eq!(catalog.pages.len(), 2);
    assert_eq!(catalog.sessions[0].status, "completed");
    let root_page = catalog.get_page(&result.session_id, "http://a.test/").unwrap();
    assert_eq!(root_page.internal_links_count, 1);
    assert_eq!(root_page.external_links_count, 1);
}

#[test]
fn failures_are_recorded_not_fatal() {
    let mut catalog = Catalog::new();
    let mut engine = CrawlEngine::new(
        &mut catalog,
        vec!["http://a.test/".to_string()],
        config(),
        "{}".to_string(),
        100,
    );
    let entry = engine.frontier.pop().unwrap();
    engine.record_failure(&mut catalog, &entry.url, "HttpError", "status 404", Some(404), 150);
    let result = engine.finish(&mut catalog, 300, 10);
    assert_eq!(result.pages_crawled, 0);
    assert_eq!(result.errors, 1);
    assert_eq!(catalog.errors.len(), 1);
    assert_eq!(catalog.errors[0].status_code, Some(404));
}

#[test]
fn storing_the_same_url_twice_in_a_session_is_refused() {
    let mut catalog = Catalog::new();
    // two request URLs redirect to the same final URL
    let mut engine = CrawlEngine::new(
        &mut catalog,
        vec!["http://a.test/".to_string(), "http://a.test/alias".to_string()],
        config(),
        "{}".to_string(),
        100,
    );
    let first = engine.frontier.pop().unwrap();
    assert!(engine
        .record_success(&mut catalog, &first.url, 0, "http://a.test/", 200, ROOT, "", 1, 2)
        .is_ok());
    let second = engine.frontier.pop().unwrap();
    assert!(engine
        .record_success(&mut catalog, &second.url, 0, "http://a.test/", 200, ROOT, "", 1, 3)
        .is_err());
    assert_eq!(engine.pages_crawled, 1);
    assert_eq!(engine.errors, 1);
    assert_eq!(catalog.pages.len(), 1);
}

#[test]
fn the_robots_check_blocks_disallowed_paths() {
    let mut catalog = Catalog::new();
    let engine = CrawlEngine::new(
        &mut catalog,
        vec![],
        CrawlConfig::default(),
        "{}".to_string(),
        100,
    );
    let mut cache = RobotsCache::new();
    let url = "http://a.test/private/page";
    // nothing cached yet: the caller must fetch robots.txt first
    assert!(engine.robots_allowed(&cache, url).is_none());
    let key = robots_url_for(url).unwrap();
    assert_eq!(key, "http://a.test/robots.txt");
    cache.insert(key, RobotsTxt::parse("User-agent: *\nDisallow: /private"));
    assert_eq!(engine.robots_allowed(&cache, url), Some(false));
    assert_eq!(engine.robots_allowed(&cache, "http://a.test/public"), Some(true));
}

#[test]
fn a_hundred_fixture_pages_give_a_hundred_rows() {
    let mut catalog = Catalog::new();
    let seeds: Vec<String> = (0..100).map(|i| format!("http://big.test/page{}", i)).collect();
    let mut cfg = CrawlConfig::default();
    cfg.max_pages = 200;
    let mut engine = CrawlEngine::new(&mut catalog, seeds, cfg, "{}".to_string(), 0);
    while let Some(entry) = engine.frontier.pop() {
        // every page links to the last one and back to the first
        let body = format!(
            "<html><body><a href=\"/page{}\">last</a><a href=\"/page0\">home</a></body></html>",
            99
        );
        engine
            .record_success(&mut catalog, &entry.url, entry.depth, &entry.url, 200, &body, "", 1, 7)
            .unwrap();
    }
    let result = engine.finish(&mut catalog, 10, 10);
    assert_eq!(result.pages_crawled, 100);
    assert_eq!(result.errors, 0);
    assert_eq!(catalog.pages.len(), 100);
    let mut urls = catalog.get_all_crawled_urls();
    assert_eq!(urls.len(), 100);
    urls.sort();
    urls.dedup();
    assert_eq!(urls.len(), 100);
}
