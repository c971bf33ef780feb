//! The data model: configuration records, crawl results, backlinks, scores,
//! statistics, and the error taxonomy.  Timestamps are Unix seconds; scores
//! are integer percentages in `[0, 100]`.

use vstd::prelude::*;

verus! {

/// A hyperlink from a page on one site to a page on a different site.
pub struct BacklinkData {
    /// The page the link was found on.
    pub source_url: String,
    /// The page the link points to.
    pub target_url: String,
    /// The text of the anchor element.
    pub anchor_text: String,
    /// Up to 200 characters of text around the link.
    pub context: String,
    /// The title of the source page.
    pub page_title: String,
    /// The authority score of the source domain, 0 to 100.
    pub domain_authority: u64,
    /// Whether the link carries `rel="nofollow"`.
    pub is_nofollow: bool,
    /// When the link was discovered, Unix seconds.
    pub discovered_at: i64,
}

impl BacklinkData {
    /// A fresh backlink record with no authority score yet.
    pub fn new(
        source_url: String,
        target_url: String,
        anchor_text: String,
        context: String,
        page_title: String,
        now: i64,
    ) -> (r: BacklinkData)
        ensures
            r.source_url == source_url,
            r.target_url == target_url,
            r.anchor_text == anchor_text,
            r.context == context,
            r.page_title == page_title,
            r.domain_authority == 0,
            r.is_nofollow == false,
            r.discovered_at == now,
    {
        BacklinkData {
            source_url,
            target_url,
            anchor_text,
            context,
            page_title,
            domain_authority: 0,
            is_nofollow: false,
            discovered_at: now,
        }
    }
}

/// One fully extracted page.
pub struct CrawledPage {
    /// The URL the page was fetched from.
    pub url: String,
    /// The URL before any redirect.
    pub original_url: String,
    /// The URLs passed through by redirects, in order.
    pub redirect_chain: Vec<String>,
    /// The text of the first `title` element, trimmed.
    pub title: String,
    /// The `content` of `meta[name=description]`.
    pub meta_description: String,
    /// The text of the body, whitespace-collapsed.
    pub content_text: String,
    /// The raw HTML.
    pub content_html: String,
    /// Lower-case hex SHA-256 of the raw body.
    pub content_hash: String,
    /// The number of whitespace-separated words of the body text.
    pub word_count: usize,
    /// The size of the raw body in bytes.
    pub page_size: usize,
    /// The HTTP status of the response.
    pub http_status_code: u16,
    /// How long the fetch took, in milliseconds.
    pub response_time_ms: u64,
    /// The `lang` attribute of `html`, or `en`.
    pub language: String,
    /// The charset of the `content-type` header, or `utf-8`.
    pub charset: String,
    /// The trimmed, non-empty `h1` texts, in order.
    pub h1_tags: Vec<String>,
    /// The trimmed, non-empty `h2` texts, in order.
    pub h2_tags: Vec<String>,
    /// The trimmed, non-empty comma-separated entries of
    /// `meta[name=keywords]`.
    pub meta_keywords: Vec<String>,
    /// The `href` of `link[rel=canonical]`.
    pub canonical_url: String,
    /// The `content` of `meta[name=robots]`.
    pub robots_meta: String,
    /// How many extracted links share the page's host.
    pub internal_links_count: usize,
    /// How many extracted links point to other hosts.
    pub external_links_count: usize,
    /// The number of `img` elements.
    pub images_count: usize,
    /// When the page was crawled, Unix seconds.
    pub crawl_time: i64,
}

impl CrawledPage {
    /// An empty page record for `url`, to be filled by extraction.
    pub fn new(url: String, original_url: String, now: i64) -> (r: CrawledPage)
        ensures
            r.url == url,
            r.original_url == original_url,
            r.redirect_chain@.len() == 0,
            r.title@.len() == 0,
            r.content_hash@.len() == 0,
            r.word_count == 0,
            r.page_size == 0,
            r.http_status_code == 0,
            r.crawl_time == now,
    {
        CrawledPage {
            url,
            original_url,
            redirect_chain: Vec::new(),
            title: String::new(),
            meta_description: String::new(),
            content_text: String::new(),
            content_html: String::new(),
            content_hash: String::new(),
            word_count: 0,
            page_size: 0,
            http_status_code: 0,
            response_time_ms: 0,
            language: String::new(),
            charset: String::new(),
            h1_tags: Vec::new(),
            h2_tags: Vec::new(),
            meta_keywords: Vec::new(),
            canonical_url: String::new(),
            robots_meta: String::new(),
            internal_links_count: 0,
            external_links_count: 0,
            images_count: 0,
            crawl_time: now,
        }
    }
}

/// Relies on `uuid::Uuid::new_v4` and its `Display`: a fresh random UUID in
/// hyphenated form, which is always 36 characters.
#[verifier::external_body]
pub(crate) fn new_session_id() -> (r: String)
    ensures
        r@.len() == 36,
{
    uuid::Uuid::new_v4().to_string()
}

/// One invocation of the crawl engine: groups the pages and errors it
/// produced.
pub struct CrawlSession {
    /// An opaque unique identifier.
    pub id: String,
    /// When the session started, Unix seconds.
    pub start_time: i64,
    /// The seed URLs the session was started with.
    pub seed_urls: Vec<String>,
    /// A snapshot of the configuration, as JSON text.
    pub config: String,
    /// When the session ended, where it has.
    pub end_time: Option<i64>,
    /// `running`, `completed` or `aborted`.
    pub status: String,
}

impl CrawlSession {
    /// A freshly opened session with a random id and status `running`.
    pub fn new(seed_urls: Vec<String>, config: String, now: i64) -> (r: CrawlSession)
        ensures
            r.id@.len() == 36,
            r.start_time == now,
            r.seed_urls == seed_urls,
            r.config == config,
            r.end_time is None,
            r.status@ == "running"@,
    {
        let mut status = String::new();
        status.append("running");
        CrawlSession { id: new_session_id(), start_time: now, seed_urls, config, end_time: None, status }
    }
}

/// The authority of one referring domain.
pub struct DomainScore {
    /// The domain the score belongs to.
    pub domain: String,
    /// Normalized authority, 0 to 100.
    pub authority_score: u64,
    /// How many backlinks came from this domain.
    pub total_backlinks: usize,
    /// How many distinct domains link to this one.
    pub unique_referring_domains: usize,
    /// When the score was computed, Unix seconds.
    pub last_updated: i64,
}

impl DomainScore {
    /// A zero score for `domain`.
    pub fn new(domain: String, now: i64) -> (r: DomainScore)
        ensures
            r.domain == domain,
            r.authority_score == 0,
            r.total_backlinks == 0,
            r.unique_referring_domains == 0,
            r.last_updated == now,
    {
        DomainScore {
            domain,
            authority_score: 0,
            total_backlinks: 0,
            unique_referring_domains: 0,
            last_updated: now,
        }
    }
}

/// The one-pass PageRank-style score of one URL.
pub struct PageRankScore {
    /// The URL the score belongs to.
    pub url: String,
    /// Normalized score, 0 to 100.
    pub pagerank_score: u64,
    /// When the score was computed, Unix seconds.
    pub last_calculated: i64,
}

impl PageRankScore {
    /// A score record for `url`.
    pub fn new(url: String, score: u64, now: i64) -> (r: PageRankScore)
        ensures
            r.url == url,
            r.pagerank_score == score,
            r.last_calculated == now,
    {
        PageRankScore { url, pagerank_score: score, last_calculated: now }
    }
}

/// What can go wrong while crawling.
#[derive(Debug)]
pub enum CrawlError {
    /// A response arrived with a non-success status.
    HttpError(u16, String),
    /// Connecting, DNS or TLS failed.
    NetworkError(String),
    /// The request exceeded its timeout.
    TimeoutError(String),
    /// HTML or a URL could not be parsed.
    ParseError(String),
    /// A catalog write failed.
    DatabaseError(String),
    /// Reading or writing a file failed.
    IoError(String),
    /// A URL could not be parsed.
    UrlParseError(String),
    /// JSON could not be read or written.
    JsonError(String),
}

impl CrawlError {
    /// A database error tagged with the session, URL and kind it arose from.
    pub fn new(session_id: String, url: String, error_type: String, error_msg: String) -> (r:
        CrawlError)
        ensures
            r matches CrawlError::DatabaseError(m) && m@ == "Session "@ + session_id@ + ": "@
                + url@ + " - "@ + error_type@ + ": "@ + error_msg@,
    {
        let mut m = String::new();
        m.append("Session ");
        m.append(session_id.as_str());
        m.append(": ");
        m.append(url.as_str());
        m.append(" - ");
        m.append(error_type.as_str());
        m.append(": ");
        m.append(error_msg.as_str());
        CrawlError::DatabaseError(m)
    }
}

/// The outcome counts of one crawl invocation.
pub struct CrawlResult {
    /// The id of the session the crawl ran under.
    pub session_id: String,
    /// How many pages were stored.
    pub pages_crawled: usize,
    /// How many per-URL errors were recorded.
    pub errors: usize,
    /// How long the crawl ran, in milliseconds.
    pub duration_ms: u64,
}

/// When the crawler may run, when backlink discovery may run.
pub struct ScheduleConfig {
    /// The hours of day, 0 to 23, given to backlink discovery.
    pub backlink_hours: Vec<u32>,
    /// The hours of day, 0 to 23, given to crawling.
    pub crawling_hours: Vec<u32>,
    /// The time zone the hours are read in.
    pub timezone: String,
    /// How long one working session lasts, in hours.
    pub session_duration_hours: u32,
}

impl Default for ScheduleConfig {
    /// Four two-hour backlink sessions a day; crawling in the gaps.
    fn default() -> (r: ScheduleConfig)
        ensures
            r.backlink_hours@ == seq![2u32, 8u32, 14u32, 20u32],
            r.crawling_hours@ == seq![
                0u32, 1u32, 4u32, 5u32, 6u32, 7u32, 10u32, 11u32, 12u32, 13u32, 16u32, 17u32,
                18u32, 19u32, 22u32, 23u32,
            ],
            r.timezone@ == "UTC"@,
            r.session_duration_hours == 2,
    {
        let mut timezone = String::new();
        timezone.append("UTC");
        let backlink_hours: Vec<u32> = vec![2, 8, 14, 20];
        let crawling_hours: Vec<u32> = vec![0, 1, 4, 5, 6, 7, 10, 11, 12, 13, 16, 17, 18, 19, 22, 23];
        proof {
            assert(backlink_hours@ =~= seq![2u32, 8u32, 14u32, 20u32]);
            assert(crawling_hours@ =~= seq![
                0u32, 1u32, 4u32, 5u32, 6u32, 7u32, 10u32, 11u32, 12u32, 13u32, 16u32, 17u32,
                18u32, 19u32, 22u32, 23u32,
            ]);
        }
        ScheduleConfig { backlink_hours, crawling_hours, timezone, session_duration_hours: 2 }
    }
}

/// The live counters shown on the dashboard.
pub struct DashboardStats {
    /// Pages stored with a success status, all time.
    pub total_urls_crawled: i64,
    /// Backlinks stored, all time.
    pub total_backlinks_found: i64,
    /// Distinct hosts among successfully crawled pages.
    pub unique_domains: i64,
    /// Pages crawled in the last hour.
    pub crawl_rate_per_hour: i64,
    /// Backlinks discovered in the last hour.
    pub backlink_rate_per_hour: i64,
    /// Size of the catalog file in bytes, as the store reports it.
    pub database_size_bytes: u64,
    /// Memory in use, percent.
    pub system_memory_usage: u64,
    /// CPU in use, percent.
    pub system_cpu_usage: u64,
    /// When the stats were computed, Unix seconds.
    pub last_updated: i64,
    /// `crawling`, `backlink_processing` or `idle`.
    pub current_mode: String,
    /// When the mode will next change, Unix seconds.
    pub next_mode_switch: i64,
}

/// A URL the crawler may start from.
pub struct SeedUrl {
    /// The absolute http(s) URL.
    pub url: String,
    /// When the seed was added, Unix seconds.
    pub added_at: i64,
    /// Higher is crawled sooner.
    pub priority: i32,
    /// When the seed was last crawled, where it has been.
    pub last_crawled: Option<i64>,
    /// How many times the seed has been crawled.
    pub crawl_count: i32,
}

/// A coarse health report of the running services.
pub struct SystemHealth {
    /// The state of the catalog store.
    pub database_status: String,
    /// The state of the crawl engine.
    pub crawler_status: String,
    /// The state of the backlink engine.
    pub backlink_processor_status: String,
    /// The state of the scheduler.
    pub scheduler_status: String,
    /// Seconds since the process started.
    pub uptime_seconds: u64,
    /// Errors logged in the last hour.
    pub errors_last_hour: i32,
    /// Warnings logged in the last hour.
    pub warnings_last_hour: i32,
}

/// How the concurrent crawler behaves.
pub struct CrawlerConfig {
    /// The size of the request semaphore.
    pub max_concurrent_requests: usize,
    /// The fixed pause after every request, in milliseconds.
    pub delay_between_requests_ms: u64,
    /// The per-request timeout, in seconds.
    pub request_timeout_seconds: u64,
    /// How many times a failed request may be retried.
    pub max_retries: u32,
    /// Whether robots.txt is consulted before fetching.
    pub respect_robots_txt: bool,
    /// The user agents a request may be sent as.
    pub user_agents: Vec<String>,
    /// The deepest link level followed from a seed.
    pub max_depth: u32,
    /// Whether pages are rendered with JavaScript (never, here).
    pub enable_javascript: bool,
}

impl Default for CrawlerConfig {
    /// Ten workers, one-second delays, a browser-like user-agent pool.
    fn default() -> (r: CrawlerConfig)
        ensures
            r.max_concurrent_requests == 10,
            r.delay_between_requests_ms == 1000,
            r.request_timeout_seconds == 30,
            r.max_retries == 3,
            r.respect_robots_txt == true,
            r.user_agents@.len() == 3,
            r.max_depth == 4,
            r.enable_javascript == false,
    {
        let mut ua1 = String::new();
        ua1.append(
            "Mozilla/5.0 (Windows NT 10.0; Win64; x64) AppleWebKit/537.36 (KHTML, like Gecko) Chrome/120.0.0.0 Safari/537.36",
        );
        let mut ua2 = String::new();
        ua2.append(
            "Mozilla/5.0 (Macintosh; Intel Mac OS X 10_15_7) AppleWebKit/537.36 (KHTML, like Gecko) Chrome/120.0.0.0 Safari/537.36",
        );
        let mut ua3 = String::new();
        ua3.append("Mozilla/5.0 (Windows NT 10.0; Win64; x64; rv:121.0) Gecko/20100101 Firefox/121.0");
        let mut user_agents: Vec<String> = Vec::new();
        user_agents.push(ua1);
        user_agents.push(ua2);
        user_agents.push(ua3);
        CrawlerConfig {
            max_concurrent_requests: 10,
            delay_between_requests_ms: 1000,
            request_timeout_seconds: 30,
            max_retries: 3,
            respect_robots_txt: true,
            user_agents,
            max_depth: 4,
            enable_javascript: false,
        }
    }
}

/// How one crawl invocation behaves.
pub struct CrawlConfig {
    /// The user agent requests are sent as.
    pub user_agent: String,
    /// The per-request timeout, in seconds.
    pub timeout_secs: u64,
    /// How many redirects a request may follow.
    pub max_redirects: usize,
    /// The deepest link level followed from a seed.
    pub max_depth: usize,
    /// The most pages one invocation may visit.
    pub max_pages: usize,
    /// The fixed pause after every request, in milliseconds.
    pub delay_ms: u64,
    /// Whether robots.txt is consulted before fetching.
    pub respect_robots_txt: bool,
}

impl Default for CrawlConfig {
    /// A hundred pages, three levels deep, robots respected.
    fn default() -> (r: CrawlConfig)
        ensures
            r.user_agent@ == "RatCrawler/1.0"@,
            r.timeout_secs == 30,
            r.max_redirects == 5,
            r.max_depth == 3,
            r.max_pages == 100,
            r.delay_ms == 100,
            r.respect_robots_txt == true,
    {
        let mut user_agent = String::new();
        user_agent.append("RatCrawler/1.0");
        CrawlConfig {
            user_agent,
            timeout_secs: 30,
            max_redirects: 5,
            max_depth: 3,
            max_pages: 100,
            delay_ms: 100,
            respect_robots_txt: true,
        }
    }
}

/// How one backlink-discovery invocation behaves.
pub struct BacklinkConfig {
    /// The user agent requests are sent as.
    pub user_agent: String,
    /// The per-request timeout, in seconds.
    pub timeout_secs: u64,
    /// How many redirects a request may follow.
    pub max_redirects: usize,
}

impl Default for BacklinkConfig {
    /// A patient minute-long timeout for discovery fetches.
    fn default() -> (r: BacklinkConfig)
        ensures
            r.user_agent@ == "RatCrawler-Backlinks/1.0"@,
            r.timeout_secs == 60,
            r.max_redirects == 5,
    {
        let mut user_agent = String::new();
        user_agent.append("RatCrawler-Backlinks/1.0");
        BacklinkConfig { user_agent, timeout_secs: 60, max_redirects: 5 }
    }
}

/// The aggregate result of one backlink-discovery invocation.
pub struct BacklinkAnalysis {
    /// How many distinct backlinks were found.
    pub total_backlinks: usize,
    /// How many distinct referring domains they came from.
    pub unique_domains: usize,
    /// How many of them the spam heuristic flagged.
    pub spam_backlinks: usize,
    /// The authority score of the target's own domain, 0 to 100.
    pub domain_authority: u64,
    /// The PageRank-style score of the target URL, 0 to 100.
    pub pagerank_score: u64,
}

impl Default for BacklinkAnalysis {
    /// The empty analysis: nothing found, all scores zero.
    fn default() -> (r: BacklinkAnalysis)
        ensures
            r.total_backlinks == 0,
            r.unique_domains == 0,
            r.spam_backlinks == 0,
            r.domain_authority == 0,
            r.pagerank_score == 0,
    {
        BacklinkAnalysis {
            total_backlinks: 0,
            unique_domains: 0,
            spam_backlinks: 0,
            domain_authority: 0,
            pagerank_score: 0,
        }
    }
}

/// How an integrated crawl-then-discover run behaves.
pub struct IntegratedCrawlConfig {
    /// The configuration of the crawl half.
    pub web_crawl_config: CrawlConfig,
    /// The configuration of the discovery half.
    pub backlink_config: BacklinkConfig,
    /// The most crawled pages given to backlink analysis.
    pub max_backlink_analyses: usize,
    /// The budget of one backlink analysis, in seconds.
    pub backlink_timeout_secs: u64,
}

impl Default for IntegratedCrawlConfig {
    /// The two default halves, ten analyses, a minute each.
    fn default() -> (r: IntegratedCrawlConfig)
        ensures
            r.max_backlink_analyses == 10,
            r.backlink_timeout_secs == 60,
    {
        IntegratedCrawlConfig {
            web_crawl_config: Default::default(),
            backlink_config: Default::default(),
            max_backlink_analyses: 10,
            backlink_timeout_secs: 60,
        }
    }
}

/// The report closing an integrated run.
pub struct CrawlReport {
    /// Pages stored by the crawl half.
    pub total_pages_crawled: usize,
    /// Backlinks found over all analyses.
    pub total_backlinks_found: usize,
    /// Referring domains counted over all analyses.
    pub total_unique_domains: usize,
    /// Spam-flagged backlinks over all analyses.
    pub total_spam_backlinks: usize,
    /// The mean of the analyses' domain authorities, 0 to 100.
    pub average_domain_authority: u64,
    /// Per-URL errors recorded by the crawl half.
    pub crawl_errors: usize,
    /// How many backlink analyses finished.
    pub backlink_analyses_completed: usize,
}

/// The outcome of an integrated crawl-then-discover run.
pub struct IntegratedCrawlResult {
    /// The crawl half's counts.
    pub web_crawl_result: CrawlResult,
    /// Each analyzed URL with its analysis.
    pub backlink_analyses: Vec<(String, BacklinkAnalysis)>,
    /// The closing report.
    pub report: CrawlReport,
}

/// The outcome of analyzing one whole domain.
pub struct DomainAnalysis {
    /// The domain analyzed.
    pub domain: String,
    /// Pages stored while crawling it.
    pub pages_crawled: usize,
    /// The backlink analysis of its main URL.
    pub backlink_analysis: BacklinkAnalysis,
    /// The domain's own authority score, 0 to 100.
    pub domain_authority: u64,
    /// Per-URL errors recorded while crawling it.
    pub crawl_errors: usize,
}

/// Lifetime crawl statistics.
pub struct CrawlStatistics {
    /// Pages stored, all time.
    pub total_pages_crawled: usize,
    /// Per-URL errors recorded, all time.
    pub total_crawl_errors: usize,
    /// Size of the catalog file in bytes, as the store reports it.
    pub database_size_bytes: u64,
    /// When a page was last stored, where one has been.
    pub last_crawl_time: Option<i64>,
}

/// How often a scheduled crawl recurs.
pub enum CrawlSchedule {
    /// Once a day.
    Daily,
    /// Once a week.
    Weekly,
    /// Once a month.
    Monthly,
    /// On a custom expression.
    Custom(String),
}

/// A named crawl that recurs on a schedule.
pub struct ScheduledCrawl {
    /// A name for the operator.
    pub name: String,
    /// The URLs the crawl starts from.
    pub urls: Vec<String>,
    /// How often it recurs.
    pub schedule: CrawlSchedule,
    /// When it last ran, where it has, Unix seconds.
    pub last_run: Option<i64>,
}

impl ScheduledCrawl {
    /// Whether the crawl should run now.  Every scheduled crawl is
    /// currently considered due.
    pub fn is_due(&self) -> (r: bool)
        ensures
            r == true,
    {
        true
    }
}

/// How the whole daemon is assembled.
pub struct MainApplicationConfig {
    /// Where the catalog file lives.
    pub database_path: String,
    /// The port the dashboard listens on.
    pub dashboard_port: u16,
    /// How often the supervisor wakes, in minutes.
    pub check_interval_minutes: u64,
    /// The concurrent crawler's configuration.
    pub crawler_config: CrawlerConfig,
    /// The single-invocation crawl configuration.
    pub web_crawl_config: CrawlConfig,
}

impl Default for MainApplicationConfig {
    /// The catalog beside the binary, dashboard on 8080, ten-minute ticks.
    fn default() -> (r: MainApplicationConfig)
        ensures
            r.database_path@ == "ratcrawler.db"@,
            r.dashboard_port == 8080,
            r.check_interval_minutes == 10,
    {
        let mut database_path = String::new();
        database_path.append("ratcrawler.db");
        MainApplicationConfig {
            database_path,
            dashboard_port: 8080,
            check_interval_minutes: 10,
            crawler_config: Default::default(),
            web_crawl_config: Default::default(),
        }
    }
}

} // verus!
