//! robots.txt parsing and the clock-driven mode scheduler.

use ratcrawler::models::ScheduleConfig;
use ratcrawler::robots::{RobotsCache, RobotsTxt};
use ratcrawler::scheduler::{contains_hour, CrawlerMode, ScheduleManager};

#[test]
fn robots_disallow_blocks_prefixes() {
    let robots = RobotsTxt::parse("User-agent: *\nDisallow: /private");
    assert!(!robots.can_crawl("AnyBot/1.0", "/private/page"));
    assert!(!robots.can_crawl("AnyBot/1.0", "/private"));
    assert!(robots.can_crawl("AnyBot/1.0", "/public"));
    assert!(robots.can_crawl("AnyBot/1.0", "/"));
}

#[test]
fn robots_rules_are_per_agent() {
    let text = "User-agent: GoodBot\nDisallow: /only-good\n\nUser-agent: *\nDisallow: /everyone";
    let robots = RobotsTxt::parse(text);
    assert!(!robots.can_crawl("GoodBot", "/only-good/x"));
    assert!(robots.can_crawl("OtherBot", "/only-good/x"));
    assert!(!robots.can_crawl("GoodBot", "/everyone"));
    assert!(!robots.can_crawl("OtherBot", "/everyone"));
}

#[test]
fn robots_ignores_comments_blanks_and_unknown_directives() {
    let text = "# a comment\n\nSitemap: http://a.test/map.xml\nUser-agent: *\n# another\nDisallow: /x\nCrawl-delay: 10";
    let robots = RobotsTxt::parse(text);
    assert_eq!(robots.rules.len(), 1);
    assert!(!robots.can_crawl("B", "/x/y"));
    assert!(robots.can_crawl("B", "/y"));
}

#[test]
fn robots_empty_disallow_is_ignored() {
    let robots = RobotsTxt::parse("User-agent: *\nDisallow:");
    assert_eq!(robots.rules.len(), 0);
    assert!(robots.can_crawl("B", "/anything"));
    let allow_all: RobotsTxt = Default::default();
    assert!(allow_all.can_crawl("B", "/anything"));
}

#[test]
fn robots_directives_are_case_insensitive() {
    let robots = RobotsTxt::parse("USER-AGENT: *\nDISALLOW: /x");
    assert!(!robots.can_crawl("B", "/x"));
}

#[test]
fn robots_cache_is_keyed_and_single_shot() {
    let mut cache = RobotsCache::new();
    assert!(cache.get("http://a.test/robots.txt").is_none());
    cache.insert(
        "http://a.test/robots.txt".to_string(),
        RobotsTxt::parse("User-agent: *\nDisallow: /p"),
    );
    let hit = cache.get("http://a.test/robots.txt").unwrap();
    assert!(!hit.can_crawl("B", "/p"));
    // a second insert for the same origin does not replace the first
    cache.insert("http://a.test/robots.txt".to_string(), RobotsTxt::parse(""));
    let hit2 = cache.get("http://a.test/robots.txt").unwrap();
    assert!(!hit2.can_crawl("B", "/p"));
}

fn schedule_for_s5() -> ScheduleConfig {
    let mut cfg = ScheduleConfig::default();
    cfg.backlink_hours = vec![6, 12, 18, 0];
    cfg.crawling_hours = (0..24u32).filter(|h| ![6, 12, 18, 0].contains(h)).collect();
    cfg
}

#[test]
fn mode_follows_the_hour() {
    let mgr = ScheduleManager::new(schedule_for_s5(), 0);
    // 06:00 on the first day
    assert_eq!(mgr.get_current_mode(6 * 3600), CrawlerMode::BacklinkProcessing);
    assert_eq!(mgr.get_current_mode(7 * 3600), CrawlerMode::Crawling);
    assert!(mgr.is_backlink_processing_time(6 * 3600));
    assert!(!mgr.is_backlink_processing_time(7 * 3600));
    assert!(mgr.is_crawling_time(7 * 3600));
}

#[test]
fn idle_where_no_hour_set_claims_the_clock() {
    let cfg = ScheduleConfig {
        backlink_hours: vec![2],
        crawling_hours: vec![10],
        timezone: "UTC".to_string(),
        session_duration_hours: 2,
    };
    let mgr = ScheduleManager::new(cfg, 0);
    assert_eq!(mgr.get_current_mode(5 * 3600), CrawlerMode::Idle);
}

#[test]
fn next_switch_is_the_next_differing_working_hour() {
    let mgr = ScheduleManager::new(schedule_for_s5(), 0);
    // 06:30 -> 07:00
    assert_eq!(mgr.get_next_mode_switch(6 * 3600 + 1800), 7 * 3600);
    // 07:10 -> 12:00 (hours 8..11 are all crawling, same mode)
    assert_eq!(mgr.get_next_mode_switch(7 * 3600 + 600), 12 * 3600);
    // 23:30 -> 00:00 next day (hour 0 is a backlink hour)
    assert_eq!(mgr.get_next_mode_switch(23 * 3600 + 1800), 24 * 3600);
}

#[test]
fn mode_labels() {
    assert_eq!(CrawlerMode::Crawling.label(), "crawling");
    assert_eq!(CrawlerMode::BacklinkProcessing.label(), "backlink_processing");
    assert_eq!(CrawlerMode::Idle.label(), "idle");
}

#[test]
fn health_report_counts_uptime() {
    let mgr = ScheduleManager::new(ScheduleConfig::default(), 1000);
    let health = mgr.get_system_health(4600);
    assert_eq!(health.uptime_seconds, 3600);
    assert_eq!(health.database_status, "healthy");
    assert_eq!(health.errors_last_hour, 0);
}

#[test]
fn hour_membership() {
    let hours: Vec<u32> = vec![2, 8, 14, 20];
    assert!(contains_hour(&hours, 14));
    assert!(!contains_hour(&hours, 15));
}
