//! Backlink scoring: domain authority, spam detection, and the one-pass
//! PageRank weighting.

use ratcrawler::models::BacklinkData;
use ratcrawler::scoring::{
    analyze_collected_backlinks, backlink_is_spam, calculate_domain_authority, calculate_pagerank,
    collect_referring_domains, count_backlinks_from, detect_spam_backlinks,
};

fn backlink(source: &str, target: &str, anchor: &str, context: &str) -> BacklinkData {
    BacklinkData::new(
        source.to_string(),
        target.to_string(),
        anchor.to_string(),
        context.to_string(),
        "Some Page".to_string(),
        1000,
    )
}

#[test]
fn authority_normalizes_the_best_domain_to_100() {
    let backlinks = vec![
        backlink("http://ref1.test/a", "http://t.test/x", "X", ""),
        backlink("http://ref1.test/b", "http://t.test/y", "Y", ""),
        backlink("http://ref2.test/c", "http://t.test/z", "Z", ""),
    ];
    let scores = calculate_domain_authority(&backlinks, 2000);
    assert_eq!(scores.len(), 2);
    assert_eq!(scores[0].domain, "ref1.test");
    assert_eq!(scores[0].authority_score, 100);
    assert_eq!(scores[0].total_backlinks, 2);
    assert_eq!(scores[1].domain, "ref2.test");
    assert_eq!(scores[1].authority_score, 50);
    assert_eq!(scores[1].last_updated, 2000);
}

#[test]
fn no_backlinks_means_no_scores() {
    let scores = calculate_domain_authority(&Vec::new(), 0);
    assert_eq!(scores.len(), 0);
    let pr = calculate_pagerank(&Vec::new(), 0);
    assert_eq!(pr.len(), 0);
}

#[test]
fn unparseable_sources_are_skipped() {
    let backlinks = vec![
        backlink("not a url", "http://t.test/x", "X", ""),
        backlink("http://ref1.test/a", "http://t.test/x", "X", ""),
    ];
    let domains = collect_referring_domains(&backlinks);
    assert_eq!(domains, vec!["ref1.test".to_string()]);
    assert_eq!(count_backlinks_from(&backlinks, &"ref1.test".chars().collect()), 1);
}

#[test]
fn spam_words_flag_a_backlink_anywhere() {
    let spammy = backlink("http://x.test/", "http://t.test/", "anchor", "best online casino bonuses");
    let clean = backlink("http://x.test/", "http://t.test/", "anchor", "academic research");
    assert!(backlink_is_spam(&spammy));
    assert!(!backlink_is_spam(&clean));
    let in_url = backlink("http://best-poker.test/", "http://t.test/", "a", "");
    assert!(backlink_is_spam(&in_url));
    let in_anchor = backlink("http://x.test/", "http://t.test/", "cheap VIAGRA here", "");
    assert!(backlink_is_spam(&in_anchor));
    let flagged = detect_spam_backlinks(&vec![spammy, clean]);
    assert_eq!(flagged.len(), 1);
    assert_eq!(flagged[0].context, "best online casino bonuses");
}

#[test]
fn pagerank_splits_weight_by_out_degree() {
    // one referring domain, two targets: each gets 1/2, both normalize to 100
    let backlinks = vec![
        backlink("http://ref1.test/a", "http://target.test/x", "X", ""),
        backlink("http://ref1.test/a", "http://target.test/y", "Y", ""),
    ];
    let pr = calculate_pagerank(&backlinks, 0);
    assert_eq!(pr.len(), 2);
    assert_eq!(pr[0].url, "http://target.test/x");
    assert_eq!(pr[0].pagerank_score, 100);
    assert_eq!(pr[1].url, "http://target.test/y");
    assert_eq!(pr[1].pagerank_score, 100);
}

#[test]
fn pagerank_favors_targets_of_focused_domains() {
    let backlinks = vec![
        // ref1 spreads over two targets, ref2 is focused on one
        backlink("http://ref1.test/a", "http://t.test/x", "X", ""),
        backlink("http://ref1.test/b", "http://t.test/y", "Y", ""),
        backlink("http://ref2.test/c", "http://t.test/y", "Y2", ""),
    ];
    let pr = calculate_pagerank(&backlinks, 0);
    assert_eq!(pr.len(), 2);
    // y gets 1/2 + 1/1 = 3/2; x gets 1/2; x normalizes to 33
    assert_eq!(pr[0].url, "http://t.test/x");
    assert_eq!(pr[0].pagerank_score, 33);
    assert_eq!(pr[1].url, "http://t.test/y");
    assert_eq!(pr[1].pagerank_score, 100);
}

#[test]
fn analysis_reads_the_targets_own_scores() {
    let backlinks = vec![
        backlink("http://ref1.test/a", "http://target.test/", "X", ""),
        backlink("http://ref1.test/b", "http://target.test/deep", "Y", "casino"),
    ];
    let (analysis, domains, pageranks) =
        analyze_collected_backlinks(&backlinks, "http://target.test/", 0);
    assert_eq!(analysis.total_backlinks, 2);
    assert_eq!(analysis.unique_domains, 1);
    assert_eq!(analysis.spam_backlinks, 1);
    // the target's own domain has no backlinks pointing to ref1.test
    assert_eq!(analysis.domain_authority, 0);
    // the exact target URL received one backlink
    assert_eq!(analysis.pagerank_score, 100);
    assert_eq!(domains.len(), 1);
    assert_eq!(pageranks.len(), 2);
}
