//! The catalog: session and page bookkeeping, seed management, score
//! tables, and the dashboard counters.

use ratcrawler::catalog::Catalog;
use ratcrawler::models::{BacklinkData, CrawledPage, DomainScore, PageRankScore, SeedUrl};

fn page(url: &str, status: u16, when: i64) -> CrawledPage {
    let mut p = CrawledPage::new(url.to_string(), url.to_string(), when);
    p.http_status_code = status;
    p.title = format!("title of {}", url);
    p.word_count = 42;
    p
}

fn backlink(source: &str, target: &str, anchor: &str, when: i64) -> BacklinkData {
    BacklinkData::new(
        source.to_string(),
        target.to_string(),
        anchor.to_string(),
        String::new(),
        String::new(),
        when,
    )
}

#[test]
fn a_page_must_name_a_known_session() {
    let mut c = Catalog::new();
    let err = c.store_crawled_page(page("http://a.test/", 200, 1), "no-such-session");
    assert!(err.is_err());
    assert_eq!(c.pages.len(), 0);
}

#[test]
fn a_session_never_stores_a_url_twice() {
    let mut c = Catalog::new();
    let sid = c.create_crawl_session(vec!["http://a.test/".to_string()], "{}".to_string(), 1);
    assert!(c.store_crawled_page(page("http://a.test/", 200, 1), &sid).is_ok());
    assert!(c.store_crawled_page(page("http://a.test/", 200, 2), &sid).is_err());
    assert_eq!(c.pages.len(), 1);
    // the same URL under a different session is a different row
    let sid2 = c.create_crawl_session(vec![], "{}".to_string(), 2);
    assert!(c.store_crawled_page(page("http://a.test/", 200, 3), &sid2).is_ok());
    assert_eq!(c.pages.len(), 2);
}

#[test]
fn a_stored_page_reads_back_unchanged() {
    let mut c = Catalog::new();
    let sid = c.create_crawl_session(vec![], "{}".to_string(), 1);
    let mut p = page("http://a.test/x", 200, 5);
    p.h1_tags = vec!["One".to_string(), "Two".to_string()];
    p.meta_keywords = vec!["k1".to_string(), "k2".to_string()];
    p.content_hash = "abc123".to_string();
    p.language = "de".to_string();
    c.store_crawled_page(p, &sid).unwrap();
    let got = c.get_page(&sid, "http://a.test/x").unwrap();
    assert_eq!(got.url, "http://a.test/x");
    assert_eq!(got.title, "title of http://a.test/x");
    assert_eq!(got.h1_tags, vec!["One".to_string(), "Two".to_string()]);
    assert_eq!(got.meta_keywords, vec!["k1".to_string(), "k2".to_string()]);
    assert_eq!(got.content_hash, "abc123");
    assert_eq!(got.language, "de");
    assert_eq!(got.word_count, 42);
    assert_eq!(got.crawl_time, 5);
    assert!(c.get_page(&sid, "http://a.test/other").is_none());
}

#[test]
fn sessions_open_and_close() {
    let mut c = Catalog::new();
    let sid = c.create_crawl_session(vec!["s".to_string()], "{}".to_string(), 10);
    assert_eq!(c.sessions.len(), 1);
    assert_eq!(c.sessions[0].status, "running");
    assert!(c.sessions[0].end_time.is_none());
    c.finish_crawl_session(&sid, "completed", 99);
    assert_eq!(c.sessions[0].status, "completed");
    assert_eq!(c.sessions[0].end_time, Some(99));
}

#[test]
fn crawl_summary_counts_per_session() {
    let mut c = Catalog::new();
    let sid = c.create_crawl_session(vec![], "{}".to_string(), 1);
    let other = c.create_crawl_session(vec![], "{}".to_string(), 1);
    c.store_crawled_page(page("http://a.test/1", 200, 1), &sid).unwrap();
    c.store_crawled_page(page("http://a.test/2", 200, 1), &sid).unwrap();
    c.store_crawled_page(page("http://a.test/1", 200, 1), &other).unwrap();
    c.log_crawl_error(&sid, "http://a.test/bad", "HttpError", "404", Some(404), 2);
    let summary = c.get_crawl_summary(&sid);
    assert_eq!(summary.pages_crawled, 2);
    assert_eq!(summary.errors, 1);
}

#[test]
fn crawled_urls_and_hashes_deduplicate() {
    let mut c = Catalog::new();
    let s1 = c.create_crawl_session(vec![], "{}".to_string(), 1);
    let s2 = c.create_crawl_session(vec![], "{}".to_string(), 1);
    let mut p1 = page("http://a.test/", 200, 1);
    p1.content_hash = "h1".to_string();
    let mut p2 = page("http://a.test/", 200, 2);
    p2.content_hash = "h1".to_string();
    c.store_crawled_page(p1, &s1).unwrap();
    c.store_crawled_page(p2, &s2).unwrap();
    assert_eq!(c.get_all_crawled_urls(), vec!["http://a.test/".to_string()]);
    assert_eq!(c.get_all_content_hashes(), vec!["h1".to_string()]);
    assert_eq!(c.get_last_crawl_time("http://a.test/"), Some(2));
    assert_eq!(c.get_last_crawl_time("http://b.test/"), None);
}

#[test]
fn backlinks_are_unique_by_source_target_and_anchor() {
    let mut c = Catalog::new();
    c.store_backlinks(&vec![
        backlink("http://r.test/a", "http://t.test/", "X", 1),
        backlink("http://r.test/a", "http://t.test/", "X", 2),
        backlink("http://r.test/a", "http://t.test/", "Y", 3),
    ]);
    assert_eq!(c.backlinks.len(), 2);
    // the replay replaced the first row
    assert_eq!(c.backlinks[0].discovered_at, 2);
    assert_eq!(c.backlinks[1].anchor_text, "Y");
}

#[test]
fn backlinks_for_a_url_come_newest_first() {
    let mut c = Catalog::new();
    c.store_backlinks(&vec![
        backlink("http://r1.test/", "http://t.test/", "A", 10),
        backlink("http://r2.test/", "http://t.test/", "B", 30),
        backlink("http://r3.test/", "http://other.test/", "C", 20),
        backlink("http://r4.test/", "http://t.test/", "D", 20),
    ]);
    let got = c.get_backlinks_for_url("http://t.test/");
    let anchors: Vec<String> = got.iter().map(|b| b.anchor_text.clone()).collect();
    assert_eq!(anchors, vec!["B".to_string(), "D".to_string(), "A".to_string()]);
}

#[test]
fn score_tables_upsert_by_key() {
    let mut c = Catalog::new();
    c.store_domain_scores(&vec![
        DomainScore::new("a.test".to_string(), 1),
        DomainScore::new("b.test".to_string(), 1),
    ]);
    let mut update = DomainScore::new("a.test".to_string(), 2);
    update.authority_score = 77;
    c.store_domain_scores(&vec![update]);
    assert_eq!(c.domain_scores.len(), 2);
    assert_eq!(c.domain_scores[0].authority_score, 77);
    c.store_pagerank_scores(&vec![
        PageRankScore::new("http://a.test/".to_string(), 50, 1),
        PageRankScore::new("http://a.test/".to_string(), 60, 2),
    ]);
    assert_eq!(c.pagerank_scores.len(), 1);
    assert_eq!(c.pagerank_scores[0].pagerank_score, 60);
}

#[test]
fn seeds_are_added_once_and_updated_in_place() {
    let mut c = Catalog::new();
    c.add_seed_urls(&vec!["http://a.test/".to_string(), "http://b.test/".to_string()], 100);
    c.add_seed_urls(&vec!["http://a.test/".to_string(), "http://c.test/".to_string()], 200);
    assert_eq!(c.seeds.len(), 3);
    assert_eq!(c.seeds[0].added_at, 100);
    assert_eq!(c.seeds[2].url, "http://c.test/");
    assert_eq!(c.seeds[2].priority, 1);
    c.update_seed_url_crawled("http://a.test/", 300);
    assert_eq!(c.seeds[0].last_crawled, Some(300));
    assert_eq!(c.seeds[0].crawl_count, 1);
    assert_eq!(c.seeds[1].last_crawled, None);
}

#[test]
fn seed_drain_order_prefers_priority_then_staleness() {
    let mut c = Catalog::new();
    c.add_seed_urls(
        &vec![
            "http://old.test/".to_string(),
            "http://never.test/".to_string(),
            "http://fresh.test/".to_string(),
        ],
        0,
    );
    c.update_seed_url_crawled("http://old.test/", 10);
    c.update_seed_url_crawled("http://fresh.test/", 90);
    // raise one seed's priority by hand
    c.seeds[2].priority = 5;
    let drained = c.get_seed_urls(10);
    let urls: Vec<String> = drained.iter().map(|s| s.url.clone()).collect();
    assert_eq!(
        urls,
        vec![
            "http://fresh.test/".to_string(),
            "http://never.test/".to_string(),
            "http://old.test/".to_string(),
        ]
    );
    let limited = c.get_seed_urls(2);
    assert_eq!(limited.len(), 2);
    assert_eq!(limited[0].url, "http://fresh.test/");
}

#[test]
fn recent_crawls_come_newest_first() {
    let mut c = Catalog::new();
    let sid = c.create_crawl_session(vec![], "{}".to_string(), 1);
    c.store_crawled_page(page("http://a.test/1", 200, 10), &sid).unwrap();
    c.store_crawled_page(page("http://a.test/2", 200, 30), &sid).unwrap();
    c.store_crawled_page(page("http://a.test/3", 200, 20), &sid).unwrap();
    let recent = c.get_recent_crawls(2);
    assert_eq!(recent.len(), 2);
    assert_eq!(recent[0].url, "http://a.test/2");
    assert_eq!(recent[1].url, "http://a.test/3");
}

#[test]
fn dashboard_counts_successes_domains_and_rates() {
    let mut c = Catalog::new();
    let sid = c.create_crawl_session(vec![], "{}".to_string(), 1);
    c.store_crawled_page(page("http://a.test/1", 200, 1000), &sid).unwrap();
    c.store_crawled_page(page("http://a.test/2", 200, 9000), &sid).unwrap();
    c.store_crawled_page(page("http://b.test/1", 200, 9500), &sid).unwrap();
    c.store_crawled_page(page("http://a.test/bad", 500, 9600), &sid).unwrap();
    c.store_backlinks(&vec![
        backlink("http://r.test/", "http://t.test/", "A", 9999),
        backlink("http://r.test/", "http://t.test/", "B", 1),
    ]);
    let now = 10000;
    let stats = c.get_dashboard_stats(now, "crawling".to_string(), 12000, 4096, 10, 20, );
    assert_eq!(stats.total_urls_crawled, 3);
    assert_eq!(stats.total_backlinks_found, 2);
    assert_eq!(stats.unique_domains, 2);
    // within the last hour: crawl times 9000, 9500, 9600 > 6400
    assert_eq!(stats.crawl_rate_per_hour, 3);
    assert_eq!(stats.backlink_rate_per_hour, 1);
    assert_eq!(stats.database_size_bytes, 4096);
    assert_eq!(stats.current_mode, "crawling");
    assert_eq!(stats.next_mode_switch, 12000);
    c.update_stats(stats);
    assert!(c.stats.is_some());
}

#[test]
fn lifetime_statistics_cover_all_sessions() {
    let mut c = Catalog::new();
    let sid = c.create_crawl_session(vec![], "{}".to_string(), 1);
    c.store_crawled_page(page("http://a.test/1", 200, 10), &sid).unwrap();
    c.store_crawled_page(page("http://a.test/2", 200, 25), &sid).unwrap();
    c.log_crawl_error(&sid, "http://a.test/x", "NetworkError", "down", None, 11);
    let stats = c.get_crawl_statistics(2048);
    assert_eq!(stats.total_pages_crawled, 2);
    assert_eq!(stats.total_crawl_errors, 1);
    assert_eq!(stats.database_size_bytes, 2048);
    assert_eq!(stats.last_crawl_time, Some(25));
    assert_eq!(Catalog::new().get_crawl_statistics(0).last_crawl_time, None);
}

#[test]
fn restored_seeds_keep_their_fields() {
    let mut c = Catalog::new();
    c.insert_seed(SeedUrl {
        url: "http://a.test/".to_string(),
        added_at: 5,
        priority: 9,
        last_crawled: Some(77),
        crawl_count: 3,
    });
    // a second row for the same URL is ignored
    c.insert_seed(SeedUrl {
        url: "http://a.test/".to_string(),
        added_at: 6,
        priority: 1,
        last_crawled: None,
        crawl_count: 0,
    });
    assert_eq!(c.seeds.len(), 1);
    assert_eq!(c.seeds[0].priority, 9);
    assert_eq!(c.seeds[0].last_crawled, Some(77));
    assert_eq!(c.seeds[0].crawl_count, 3);
}
