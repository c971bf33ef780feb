//! Backlink discovery end to end: walking fixture pages, collecting
//! cross-site links, scoring them, and storing the results.

use ratcrawler::backlink::{analyze_and_store_backlinks, BacklinkSession};
use ratcrawler::catalog::Catalog;

const REF_PAGE: &str = "<html><head><title> Referring Page </title></head><body>\
<p>Interesting reading: \
<a href=\"http://target.test/x\" rel=\"nofollow\">X</a> and \
<a href=\"http://target.test/y\">Y</a> and \
<a href=\"http://elsewhere.test/z\">Z</a></p>\
</body></html>";

#[test]
fn a_discovery_session_walks_and_collects() {
    let mut session = BacklinkSession::new("http://target.test/".to_string(), 3);
    let (first, depth) = session.next_url().unwrap();
    assert_eq!(first, "http://target.test/");
    assert_eq!(depth, 0);
    session.process_page("http://ref1.test/a", REF_PAGE, depth, 500);
    assert_eq!(session.collected.len(), 2);
    let b0 = &session.collected[0];
    assert_eq!(b0.source_url, "http://ref1.test/a");
    assert_eq!(b0.target_url, "http://target.test/x");
    assert_eq!(b0.anchor_text, "X");
    assert!(b0.is_nofollow);
    assert_eq!(b0.page_title, "Referring Page");
    assert_eq!(b0.discovered_at, 500);
    let b1 = &session.collected[1];
    assert_eq!(b1.target_url, "http://target.test/y");
    assert!(!b1.is_nofollow);
    // the link to elsewhere.test was queued for deeper walking, not collected
    assert_eq!(session.queue.len(), 1);
    assert_eq!(session.queue[0].0, "http://elsewhere.test/z");
    assert_eq!(session.queue[0].1, depth + 1);
}

#[test]
fn the_same_link_is_collected_once() {
    let mut session = BacklinkSession::new("http://target.test/".to_string(), 3);
    session.process_page("http://ref1.test/a", REF_PAGE, 0, 500);
    session.process_page("http://ref1.test/a", REF_PAGE, 0, 600);
    assert_eq!(session.collected.len(), 2);
}

#[test]
fn links_on_the_targets_own_site_are_not_backlinks() {
    let mut session = BacklinkSession::new("http://target.test/".to_string(), 3);
    let own_page = "<html><body><a href=\"http://target.test/y\">Y</a></body></html>";
    session.process_page("http://target.test/about", own_page, 0, 500);
    assert_eq!(session.collected.len(), 0);
}

#[test]
fn visited_pages_are_not_handed_out_again() {
    let mut session = BacklinkSession::new("http://target.test/".to_string(), 3);
    session.queue.push(("http://target.test/".to_string(), 0));
    assert!(session.next_url().is_some());
    // the duplicate entry is discarded
    assert!(session.next_url().is_none());
    // depth beyond the limit is discarded too
    session.queue.push(("http://deep.test/".to_string(), 3));
    assert!(session.next_url().is_none());
}

#[test]
fn search_candidates_are_filtered_by_host() {
    let mut session = BacklinkSession::new("http://target.test/".to_string(), 3);
    session.add_search_candidate("http://ref.test/page", "a result", "www.google.com", 700);
    assert_eq!(session.collected.len(), 1);
    assert_eq!(session.collected[0].source_url, "http://ref.test/page");
    assert_eq!(session.collected[0].target_url, "http://target.test/");
    // the engine's own links are not candidates
    session.add_search_candidate("http://www.google.com/more", "more", "www.google.com", 700);
    // links on the target's own site are not candidates
    session.add_search_candidate("http://target.test/self", "self", "www.google.com", 700);
    // non-http links are not candidates
    session.add_search_candidate("ftp://ref.test/file", "file", "www.google.com", 700);
    // a repeated candidate is kept once
    session.add_search_candidate("http://ref.test/page", "a result", "www.google.com", 800);
    assert_eq!(session.collected.len(), 1);
}

#[test]
fn a_finished_run_is_scored_and_stored() {
    let mut session = BacklinkSession::new("http://target.test/".to_string(), 3);
    session.process_page("http://ref1.test/a", REF_PAGE, 0, 500);
    let mut catalog = Catalog::new();
    let analysis =
        analyze_and_store_backlinks(&mut catalog, &session.collected, "http://target.test/", 900);
    assert_eq!(analysis.total_backlinks, 2);
    assert_eq!(analysis.unique_domains, 1);
    assert_eq!(analysis.spam_backlinks, 0);
    assert_eq!(catalog.backlinks.len(), 2);
    assert_eq!(catalog.domain_scores.len(), 1);
    assert_eq!(catalog.domain_scores[0].domain, "ref1.test");
    assert_eq!(catalog.domain_scores[0].authority_score, 100);
    // both targets carry the full normalized weight: one referrer, split evenly
    assert_eq!(catalog.pagerank_scores.len(), 2);
    assert_eq!(catalog.pagerank_scores[0].url, "http://target.test/x");
    assert_eq!(catalog.pagerank_scores[0].pagerank_score, 100);
    assert_eq!(catalog.pagerank_scores[1].pagerank_score, 100);
}

#[test]
fn a_search_page_seeds_candidates() {
    let mut session = BacklinkSession::new("http://target.test/".to_string(), 3);
    let search_page = "<html><body>\
<a href=\"http://ref.test/page\">a result</a>\
<a href=\"http://www.google.com/more\">more results</a>\
<a href=\"http://target.test/self\">the target itself</a>\
<a href=\"/relative\">nav</a>\
<a href=\"http://ref.test/page\">a result</a>\
</body></html>";
    session.add_search_results(search_page, "www.google.com", 700);
    assert_eq!(session.collected.len(), 1);
    assert_eq!(session.collected[0].source_url, "http://ref.test/page");
    assert_eq!(session.collected[0].target_url, "http://target.test/");
    assert_eq!(session.collected[0].anchor_text, "a result");
    assert!(!session.collected[0].is_nofollow);
}
