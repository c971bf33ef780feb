//! The clock-driven mode scheduler: which of crawling, backlink discovery or
//! idling is in force at a given hour, and when the mode next changes.
//! Everything here is a pure function of the clock reading and the
//! configuration; the caller supplies the clock.

use vstd::prelude::*;

use crate::models::{ScheduleConfig, SystemHealth};

verus! {

/// What the engine is doing.
#[derive(Clone, Copy, Debug, PartialEq, Eq, Structural)]
pub enum CrawlerMode {
    /// Fetching pages from the frontier.
    Crawling,
    /// Discovering backlinks.
    BacklinkProcessing,
    /// Waiting for a scheduled hour.
    Idle,
}

/// Whether `h` is one of the hours in `hours`.
pub open spec fn hour_in(hours: Seq<u32>, h: u32) -> bool {
    exists|i: int| 0 <= i < hours.len() && hours[i] == h
}

/// The mode in force at hour `h`: backlink discovery where `h` is a
/// backlink hour, else crawling where it is a crawling hour, else idle.
pub open spec fn mode_at_spec(backlink: Seq<u32>, crawling: Seq<u32>, h: u32) -> CrawlerMode {
    if hour_in(backlink, h) {
        CrawlerMode::BacklinkProcessing
    } else if hour_in(crawling, h) {
        CrawlerMode::Crawling
    } else {
        CrawlerMode::Idle
    }
}

/// The UTC hour of day of the Unix second `ts`.
pub open spec fn hour_of_ts(ts: i64) -> u32
    recommends
        ts >= 0,
{
    (((ts % 86400) / 3600) % 24) as u32
}

/// The hour `k` hours after `h0`, wrapping at midnight.
pub open spec fn hour_add(h0: u32, k: int) -> u32 {
    (((h0 + k) % 24 + 24) % 24) as u32
}

/// Whether the mode `k` hours after `h0` differs from the mode at `h0` and
/// is a working mode.
pub open spec fn switches_at(backlink: Seq<u32>, crawling: Seq<u32>, h0: u32, k: int) -> bool {
    mode_at_spec(backlink, crawling, hour_add(h0, k)) != mode_at_spec(backlink, crawling, h0)
        && mode_at_spec(backlink, crawling, hour_add(h0, k)) != CrawlerMode::Idle
}

/// The smallest offset in `k..24` at which the mode switches, or 24 where
/// none does.
pub open spec fn next_switch_from(backlink: Seq<u32>, crawling: Seq<u32>, h0: u32, k: int) -> int
    recommends
        1 <= k <= 24,
    decreases 24 - k,
{
    if k < 1 || k >= 24 {
        24
    } else if switches_at(backlink, crawling, h0, k) {
        k
    } else {
        next_switch_from(backlink, crawling, h0, k + 1)
    }
}

/// The number of whole hours from hour `h0` to the next mode switch: the
/// smallest positive offset whose hour carries a different working mode, or
/// 24 where no hour of the day does.
pub open spec fn next_switch_offset(backlink: Seq<u32>, crawling: Seq<u32>, h0: u32) -> int {
    next_switch_from(backlink, crawling, h0, 1)
}

/// Selects the mode for each hour and answers when it will change.
pub struct ScheduleManager {
    /// The hour sets the scheduler reads.
    pub config: ScheduleConfig,
    /// When the scheduler was created, Unix seconds.
    pub system_start_time: i64,
}

/// Whether `h` is in `hours`.
pub fn contains_hour(hours: &Vec<u32>, h: u32) -> (r: bool)
    ensures
        r == hour_in(hours@, h),
{
    let mut i: usize = 0;
    while i < hours.len()
        invariant
            i <= hours@.len(),
            forall|j: int| 0 <= j < i ==> hours@[j] != h,
        decreases hours@.len() - i,
    {
        if hours[i] == h {
            return true;
        }
        i = i + 1;
    }
    false
}

impl ScheduleManager {
    /// A scheduler over `config`, created at `now`.
    pub fn new(config: ScheduleConfig, now: i64) -> (r: ScheduleManager)
        ensures
            r.config == config,
            r.system_start_time == now,
    {
        ScheduleManager { config, system_start_time: now }
    }

    /// The mode in force at the hour `h`.
    pub fn mode_for_hour(&self, h: u32) -> (r: CrawlerMode)
        ensures
            r == mode_at_spec(self.config.backlink_hours@, self.config.crawling_hours@, h),
    {
        if contains_hour(&self.config.backlink_hours, h) {
            CrawlerMode::BacklinkProcessing
        } else if contains_hour(&self.config.crawling_hours, h) {
            CrawlerMode::Crawling
        } else {
            CrawlerMode::Idle
        }
    }

    /// The mode in force at the clock reading `now`.
    pub fn get_current_mode(&self, now: i64) -> (r: CrawlerMode)
        requires
            now >= 0,
        ensures
            r == mode_at_spec(
                self.config.backlink_hours@,
                self.config.crawling_hours@,
                hour_of_ts(now),
            ),
    {
        let h: u32 = (((now % 86400) / 3600) % 24) as u32;
        self.mode_for_hour(h)
    }

    /// Whether backlink discovery is scheduled at `now`.
    pub fn is_backlink_processing_time(&self, now: i64) -> (r: bool)
        requires
            now >= 0,
        ensures
            r == hour_in(self.config.backlink_hours@, hour_of_ts(now)),
    {
        contains_hour(&self.config.backlink_hours, (((now % 86400) / 3600) % 24) as u32)
    }

    /// Whether crawling is scheduled at `now`.
    pub fn is_crawling_time(&self, now: i64) -> (r: bool)
        requires
            now >= 0,
        ensures
            r == hour_in(self.config.crawling_hours@, hour_of_ts(now)),
    {
        contains_hour(&self.config.crawling_hours, (((now % 86400) / 3600) % 24) as u32)
    }

    /// The earliest instant after `now` at which the mode differs from the
    /// mode at `now`: the start of the first such hour, or a full day later
    /// where no hour of the day brings a different working mode.
    pub fn get_next_mode_switch(&self, now: i64) -> (r: i64)
        requires
            0 <= now <= i64::MAX - 90000,
        ensures
            r == now - now % 3600 + 3600 * next_switch_offset(
                self.config.backlink_hours@,
                self.config.crawling_hours@,
                hour_of_ts(now),
            ),
            r > now,
            r % 3600 == 0,
    {
        let ghost b = self.config.backlink_hours@;
        let ghost c = self.config.crawling_hours@;
        let h0: u32 = (((now % 86400) / 3600) % 24) as u32;
        let hour_start: i64 = now - now % 3600;
        let m0 = self.mode_for_hour(h0);
        let mut k: u32 = 1;
        while k < 24
            invariant
                h0 == hour_of_ts(now),
                h0 < 24,
                m0 == mode_at_spec(b, c, h0),
                b == self.config.backlink_hours@,
                c == self.config.crawling_hours@,
                0 <= now <= i64::MAX - 90000,
                hour_start == now - now % 3600,
                1 <= k <= 24,
                next_switch_offset(b, c, h0) == next_switch_from(b, c, h0, k as int),
            decreases 24 - k,
        {
            let h = (h0 + k) % 24;
            proof {
                assert(h == hour_add(h0, k as int));
            }
            let m = self.mode_for_hour(h);
            if m != m0 && m != CrawlerMode::Idle {
                assert(switches_at(b, c, h0, k as int));
                assert(next_switch_from(b, c, h0, k as int) == k as int);
                return hour_start + 3600 * (k as i64);
            }
            k = k + 1;
        }
        assert(next_switch_from(b, c, h0, 24) == 24);
        hour_start + 3600 * 24
    }

    /// A health report at `now`: every service considered running, the
    /// uptime measured from the scheduler's start.
    pub fn get_system_health(&self, now: i64) -> (r: SystemHealth)
        requires
            self.system_start_time >= 0,
        ensures
            r.uptime_seconds == if now >= self.system_start_time {
                (now - self.system_start_time) as u64
            } else {
                0u64
            },
            r.database_status@ == "healthy"@,
            r.crawler_status@ == "running"@,
            r.backlink_processor_status@ == "running"@,
            r.scheduler_status@ == "running"@,
            r.errors_last_hour == 0,
            r.warnings_last_hour == 0,
    {
        let uptime: u64 = if now >= self.system_start_time {
            (now - self.system_start_time) as u64
        } else {
            0
        };
        let mut database_status = String::new();
        database_status.append("healthy");
        let mut crawler_status = String::new();
        crawler_status.append("running");
        let mut backlink_processor_status = String::new();
        backlink_processor_status.append("running");
        let mut scheduler_status = String::new();
        scheduler_status.append("running");
        SystemHealth {
            database_status,
            crawler_status,
            backlink_processor_status,
            scheduler_status,
            uptime_seconds: uptime,
            errors_last_hour: 0,
            warnings_last_hour: 0,
        }
    }
}

impl CrawlerMode {
    /// The mode's name, as the dashboard shows it.
    pub fn label(&self) -> (r: String)
        ensures
            self is Crawling ==> r@ == "crawling"@,
            self is BacklinkProcessing ==> r@ == "backlink_processing"@,
            self is Idle ==> r@ == "idle"@,
    {
        let mut s = String::new();
        match self {
            CrawlerMode::Crawling => s.append("crawling"),
            CrawlerMode::BacklinkProcessing => s.append("backlink_processing"),
            CrawlerMode::Idle => s.append("idle"),
        }
        s
    }
}

/// The scheduler's mode selection is pure in the clock and the
/// configuration: equal hour sets and equal hours always select the same
/// mode.
pub proof fn lemma_current_mode_pure(
    b1: Seq<u32>,
    c1: Seq<u32>,
    h1: u32,
    b2: Seq<u32>,
    c2: Seq<u32>,
    h2: u32,
)
    requires
        b1 == b2,
        c1 == c2,
        h1 == h2,
    ensures
        mode_at_spec(b1, c1, h1) == mode_at_spec(b2, c2, h2),
{
}

} // verus!
