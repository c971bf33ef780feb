//! The catalog: the single in-memory store of sessions, pages, errors,
//! backlinks, seeds and scores that every engine writes to and the
//! dashboard reads from.  A page row always references a session and no
//! session holds the same URL twice; backlinks are unique by source, target
//! and anchor; seeds, domain scores and PageRank scores are keyed uniquely.

use vstd::prelude::*;

use crate::models::{
    BacklinkData, CrawlError, CrawlSession, CrawledPage, DashboardStats, DomainScore,
    PageRankScore, SeedUrl,
};
use crate::scoring::clone_backlink;
use crate::text::{chars_of, eq_chars, vec_contains_str};
use crate::urls::{extract_domain, url_host_of, url_parses};

verus! {

/// A crawled page, as stored: the page and the session it was crawled in.
pub struct PageRow {
    /// The id of the session the page belongs to.
    pub session_id: String,
    /// The page record.
    pub page: CrawledPage,
}

/// One recorded per-URL failure.
pub struct ErrorRow {
    /// The id of the session the failure happened in.
    pub session_id: String,
    /// The URL that failed.
    pub url: String,
    /// The kind of failure.
    pub error_type: String,
    /// What went wrong, in words.
    pub error_msg: String,
    /// The HTTP status, where one arrived.
    pub status_code: Option<u16>,
    /// When the failure was recorded, Unix seconds.
    pub timestamp: i64,
}

/// The page and error counts of one session.
pub struct CrawlSummary {
    /// How many pages the session stored.
    pub pages_crawled: usize,
    /// How many errors the session recorded.
    pub errors: usize,
}

/// The durable store of everything the engines produce.
pub struct Catalog {
    /// Every crawl session ever opened.
    pub sessions: Vec<CrawlSession>,
    /// Every page stored, each under its session.
    pub pages: Vec<PageRow>,
    /// Every per-URL failure recorded.
    pub errors: Vec<ErrorRow>,
    /// Every backlink stored, unique by source, target and anchor.
    pub backlinks: Vec<BacklinkData>,
    /// The seed URLs, unique by URL.
    pub seeds: Vec<SeedUrl>,
    /// The domain authority table, unique by domain.
    pub domain_scores: Vec<DomainScore>,
    /// The PageRank table, unique by URL.
    pub pagerank_scores: Vec<PageRankScore>,
    /// The dashboard counters, once computed.
    pub stats: Option<DashboardStats>,
}

/// Whether some session of `sessions` carries the id `sid`.
pub open spec fn session_exists(sessions: Seq<CrawlSession>, sid: Seq<char>) -> bool {
    exists|j: int| 0 <= j < sessions.len() && sessions[j].id@ == sid
}

/// Whether `pages` holds a row for `url` under the session `sid`.
pub open spec fn page_recorded(pages: Seq<PageRow>, sid: Seq<char>, url: Seq<char>) -> bool {
    exists|j: int| 0 <= j < pages.len() && pages[j].session_id@ == sid && pages[j].page.url@ == url
}

/// Whether two backlinks agree on source, target and anchor.
pub open spec fn same_backlink_key(a: BacklinkData, b: BacklinkData) -> bool {
    a.source_url@ == b.source_url@ && a.target_url@ == b.target_url@ && a.anchor_text@
        == b.anchor_text@
}

impl Catalog {
    /// The catalog's invariant: every page row names an existing session,
    /// no session repeats a URL, backlink keys are unique, and seeds,
    /// domain scores and PageRank scores are keyed uniquely.
    pub open spec fn well_formed(&self) -> bool {
        &&& forall|i: int|
            0 <= i < self.pages@.len() ==> session_exists(
                self.sessions@,
                #[trigger] self.pages@[i].session_id@,
            )
        &&& forall|i: int, j: int|
            0 <= i < j < self.pages@.len() ==> !(self.pages@[i].session_id@
                == self.pages@[j].session_id@ && self.pages@[i].page.url@
                == self.pages@[j].page.url@)
        &&& forall|i: int, j: int|
            0 <= i < j < self.backlinks@.len() ==> !same_backlink_key(
                self.backlinks@[i],
                self.backlinks@[j],
            )
        &&& forall|i: int, j: int|
            0 <= i < j < self.seeds@.len() ==> self.seeds@[i].url@ != self.seeds@[j].url@
        &&& forall|i: int, j: int|
            0 <= i < j < self.domain_scores@.len() ==> self.domain_scores@[i].domain@
                != self.domain_scores@[j].domain@
        &&& forall|i: int, j: int|
            0 <= i < j < self.pagerank_scores@.len() ==> self.pagerank_scores@[i].url@
                != self.pagerank_scores@[j].url@
    }

    /// An empty catalog.
    pub fn new() -> (r: Catalog)
        ensures
            r.well_formed(),
            r.sessions@.len() == 0,
            r.pages@.len() == 0,
            r.errors@.len() == 0,
            r.backlinks@.len() == 0,
            r.seeds@.len() == 0,
            r.domain_scores@.len() == 0,
            r.pagerank_scores@.len() == 0,
            r.stats is None,
    {
        Catalog {
            sessions: Vec::new(),
            pages: Vec::new(),
            errors: Vec::new(),
            backlinks: Vec::new(),
            seeds: Vec::new(),
            domain_scores: Vec::new(),
            pagerank_scores: Vec::new(),
            stats: None,
        }
    }

    /// Opens a new session over `seed_urls` at `now` and returns its id.
    pub fn create_crawl_session(&mut self, seed_urls: Vec<String>, config_json: String, now: i64)
        -> (r: String)
        requires
            old(self).well_formed(),
        ensures
            final (self).well_formed(),
            final (self).sessions@.len() == old(self).sessions@.len() + 1,
            final (self).sessions@.last().id@ == r@,
            final (self).sessions@.last().start_time == now,
            final (self).sessions@.last().seed_urls == seed_urls,
            final (self).sessions@.last().config == config_json,
            final (self).sessions@.last().end_time is None,
            final (self).sessions@.last().status@ == "running"@,
            forall|j: int|
                0 <= j < old(self).sessions@.len() ==> final (self).sessions@[j] == old(
                    self,
                ).sessions@[j],
            final (self).pages@ == old(self).pages@,
            final (self).errors@ == old(self).errors@,
            final (self).backlinks@ == old(self).backlinks@,
            final (self).seeds@ == old(self).seeds@,
            final (self).domain_scores@ == old(self).domain_scores@,
            final (self).pagerank_scores@ == old(self).pagerank_scores@,
    {
        let session = CrawlSession::new(seed_urls, config_json, now);
        let id = session.id.clone();
        self.sessions.push(session);
        proof {
            assert forall|i: int|
                0 <= i < self.pages@.len() implies session_exists(
                self.sessions@,
                #[trigger] self.pages@[i].session_id@,
            ) by {
                let j = choose|j: int|
                    0 <= j < old(self).sessions@.len() && old(self).sessions@[j].id@
                        == self.pages@[i].session_id@;
                assert(self.sessions@[j].id@ == self.pages@[i].session_id@);
            }
        }
        id
    }

    /// Stores a page under a session.  The row is refused, with a database
    /// error, where the session does not exist or the session already
    /// holds the page's URL.
    pub fn store_crawled_page(&mut self, page: CrawledPage, session_id: &str) -> (r: Result<
        (),
        CrawlError,
    >)
        requires
            old(self).well_formed(),
        ensures
            final (self).well_formed(),
            r is Ok <==> (session_exists(old(self).sessions@, session_id@) && !page_recorded(
                old(self).pages@,
                session_id@,
                page.url@,
            )),
            r is Ok ==> {
                &&& final (self).pages@.len() == old(self).pages@.len() + 1
                &&& final (self).pages@.last().page == page
                &&& final (self).pages@.last().session_id@ == session_id@
                &&& forall|j: int|
                    0 <= j < old(self).pages@.len() ==> final (self).pages@[j] == old(
                        self,
                    ).pages@[j]
            },
            r is Err ==> final (self).pages@ == old(self).pages@ && (r matches Err(
                CrawlError::DatabaseError(_),
            )),
            final (self).sessions@ == old(self).sessions@,
            final (self).errors@ == old(self).errors@,
            final (self).backlinks@ == old(self).backlinks@,
            final (self).seeds@ == old(self).seeds@,
            final (self).domain_scores@ == old(self).domain_scores@,
            final (self).pagerank_scores@ == old(self).pagerank_scores@,
    {
        let sid = chars_of(session_id);
        let mut found = false;
        let mut i: usize = 0;
        while i < self.sessions.len()
            invariant
                sid@ == session_id@,
                i <= self.sessions@.len(),
                found == exists|j: int|
                    0 <= j < i && #[trigger] self.sessions@[j].id@ == session_id@,
            decreases self.sessions@.len() - i,
        {
            let cand = chars_of(self.sessions[i].id.as_str());
            if eq_chars(&cand, &sid) {
                found = true;
            }
            i = i + 1;
        }
        if !found {
            assert(!session_exists(self.sessions@, session_id@));
            let mut m = String::new();
            m.append("unknown session");
            return Err(CrawlError::DatabaseError(m));
        }
        let pu = chars_of(page.url.as_str());
        let mut dup = false;
        let mut k: usize = 0;
        while k < self.pages.len()
            invariant
                sid@ == session_id@,
                pu@ == page.url@,
                k <= self.pages@.len(),
                dup == exists|j: int|
                    0 <= j < k && #[trigger] self.pages@[j].session_id@ == session_id@
                        && self.pages@[j].page.url@ == page.url@,
            decreases self.pages@.len() - k,
        {
            let rs = chars_of(self.pages[k].session_id.as_str());
            let ru = chars_of(self.pages[k].page.url.as_str());
            if eq_chars(&rs, &sid) && eq_chars(&ru, &pu) {
                dup = true;
            }
            k = k + 1;
        }
        if dup {
            let mut m = String::new();
            m.append("page already stored for this session");
            return Err(CrawlError::DatabaseError(m));
        }
        let sid_str = crate::text::string_from_chars(&sid);
        let row = PageRow { session_id: sid_str, page };
        self.pages.push(row);
        proof {
            assert(self.pages@.last().session_id@ == session_id@);
            assert forall|i2: int|
                0 <= i2 < self.pages@.len() implies session_exists(
                self.sessions@,
                #[trigger] self.pages@[i2].session_id@,
            ) by {
                if i2 < old(self).pages@.len() {
                    assert(session_exists(self.sessions@, old(self).pages@[i2].session_id@));
                } else {
                    assert(session_exists(self.sessions@, session_id@));
                }
            }
        }
        Ok(())
    }

    /// Records a per-URL failure under a session.
    pub fn log_crawl_error(
        &mut self,
        session_id: &str,
        url: &str,
        error_type: &str,
        error_msg: &str,
        status_code: Option<u16>,
        now: i64,
    )
        requires
            old(self).well_formed(),
        ensures
            final (self).well_formed(),
            final (self).errors@.len() == old(self).errors@.len() + 1,
            final (self).errors@.last().session_id@ == session_id@,
            final (self).errors@.last().url@ == url@,
            final (self).errors@.last().error_type@ == error_type@,
            final (self).errors@.last().error_msg@ == error_msg@,
            final (self).errors@.last().status_code == status_code,
            final (self).errors@.last().timestamp == now,
            forall|j: int|
                0 <= j < old(self).errors@.len() ==> final (self).errors@[j] == old(
                    self,
                ).errors@[j],
            final (self).sessions@ == old(self).sessions@,
            final (self).pages@ == old(self).pages@,
            final (self).backlinks@ == old(self).backlinks@,
            final (self).seeds@ == old(self).seeds@,
            final (self).domain_scores@ == old(self).domain_scores@,
            final (self).pagerank_scores@ == old(self).pagerank_scores@,
    {
        let mut s_sid = String::new();
        s_sid.append(session_id);
        let mut s_url = String::new();
        s_url.append(url);
        let mut s_ty = String::new();
        s_ty.append(error_type);
        let mut s_msg = String::new();
        s_msg.append(error_msg);
        let row = ErrorRow {
            session_id: s_sid,
            url: s_url,
            error_type: s_ty,
            error_msg: s_msg,
            status_code,
            timestamp: now,
        };
        self.errors.push(row);
    }

    /// The distinct URLs of `urls[i..]` not yet in `acc`, appended in
    /// order of first appearance.
    pub open spec fn dedup_rec(urls: Seq<Seq<char>>, i: int, acc: Seq<Seq<char>>) -> Seq<Seq<char>>
        recommends
            0 <= i <= urls.len(),
        decreases urls.len() - i,
    {
        if i < 0 || i >= urls.len() {
            acc
        } else if acc.contains(urls[i]) {
            Catalog::dedup_rec(urls, i + 1, acc)
        } else {
            Catalog::dedup_rec(urls, i + 1, acc.push(urls[i]))
        }
    }

    /// The distinct values of `urls`, in order of first appearance.
    pub open spec fn dedup_spec(urls: Seq<Seq<char>>) -> Seq<Seq<char>> {
        Catalog::dedup_rec(urls, 0, Seq::empty())
    }

    /// Every URL ever stored as a page, without repetition, in order of
    /// first storage.
    pub fn get_all_crawled_urls(&self) -> (r: Vec<String>)
        ensures
            r@.map_values(|s: String| s@) == Catalog::dedup_spec(
                self.pages@.map_values(|p: PageRow| p.page.url@),
            ),
    {
        let ghost us = self.pages@.map_values(|p: PageRow| p.page.url@);
        let mut out: Vec<String> = Vec::new();
        let mut i: usize = 0;
        assert(out@.map_values(|s: String| s@) =~= Seq::<Seq<char>>::empty());
        while i < self.pages.len()
            invariant
                us == self.pages@.map_values(|p: PageRow| p.page.url@),
                i <= us.len(),
                Catalog::dedup_spec(us) == Catalog::dedup_rec(
                    us,
                    i as int,
                    out@.map_values(|s: String| s@),
                ),
            decreases us.len() - i,
        {
            let ghost acc0 = out@.map_values(|s: String| s@);
            let uc = chars_of(self.pages[i].page.url.as_str());
            proof {
                assert(uc@ == us[i as int]);
            }
            if !vec_contains_str(&out, &uc) {
                out.push(crate::text::string_from_chars(&uc));
                proof {
                    assert(out@.map_values(|s: String| s@) =~= acc0.push(us[i as int]));
                }
            }
            i = i + 1;
        }
        out
    }

    /// Every content hash ever stored, without repetition, in order of
    /// first storage.
    pub fn get_all_content_hashes(&self) -> (r: Vec<String>)
        ensures
            r@.map_values(|s: String| s@) == Catalog::dedup_spec(
                self.pages@.map_values(|p: PageRow| p.page.content_hash@),
            ),
    {
        let ghost us = self.pages@.map_values(|p: PageRow| p.page.content_hash@);
        let mut out: Vec<String> = Vec::new();
        let mut i: usize = 0;
        assert(out@.map_values(|s: String| s@) =~= Seq::<Seq<char>>::empty());
        while i < self.pages.len()
            invariant
                us == self.pages@.map_values(|p: PageRow| p.page.content_hash@),
                i <= us.len(),
                Catalog::dedup_spec(us) == Catalog::dedup_rec(
                    us,
                    i as int,
                    out@.map_values(|s: String| s@),
                ),
            decreases us.len() - i,
        {
            let ghost acc0 = out@.map_values(|s: String| s@);
            let uc = chars_of(self.pages[i].page.content_hash.as_str());
            proof {
                assert(uc@ == us[i as int]);
            }
            if !vec_contains_str(&out, &uc) {
                out.push(crate::text::string_from_chars(&uc));
                proof {
                    assert(out@.map_values(|s: String| s@) =~= acc0.push(us[i as int]));
                }
            }
            i = i + 1;
        }
        out
    }

    /// The latest crawl time among the first `n` page rows for `url`.
    pub open spec fn last_time_rec(pages: Seq<PageRow>, url: Seq<char>, n: int) -> Option<i64>
        recommends
            n <= pages.len(),
        decreases n,
    {
        if n <= 0 {
            None
        } else {
            let rest = Catalog::last_time_rec(pages, url, n - 1);
            if pages[n - 1].page.url@ == url {
                match rest {
                    None => Some(pages[n - 1].page.crawl_time),
                    Some(t) => if pages[n - 1].page.crawl_time > t {
                        Some(pages[n - 1].page.crawl_time)
                    } else {
                        Some(t)
                    },
                }
            } else {
                rest
            }
        }
    }

    /// When `url` was last crawled: the latest crawl time among its page
    /// rows, `None` where it has none.
    pub fn get_last_crawl_time(&self, url: &str) -> (r: Option<i64>)
        ensures
            r == Catalog::last_time_rec(self.pages@, url@, self.pages@.len() as int),
    {
        let uc = chars_of(url);
        let mut r: Option<i64> = None;
        let mut i: usize = 0;
        while i < self.pages.len()
            invariant
                uc@ == url@,
                i <= self.pages@.len(),
                r == Catalog::last_time_rec(self.pages@, url@, i as int),
            decreases self.pages@.len() - i,
        {
            let pu = chars_of(self.pages[i].page.url.as_str());
            if eq_chars(&pu, &uc) {
                let t = self.pages[i].page.crawl_time;
                r = match r {
                    None => Some(t),
                    Some(prev) => if t > prev {
                        Some(t)
                    } else {
                        Some(prev)
                    },
                };
            }
            i = i + 1;
        }
        r
    }

    /// Closes every session carrying `session_id`: sets its end time to
    /// `now` and its status to `status`; all other rows stand unchanged.
    pub fn finish_crawl_session(&mut self, session_id: &str, status: &str, now: i64)
        requires
            old(self).well_formed(),
        ensures
            final (self).well_formed(),
            final (self).sessions@.len() == old(self).sessions@.len(),
            forall|j: int|
                0 <= j < old(self).sessions@.len() ==> {
                    let o = #[trigger] old(self).sessions@[j];
                    let n = final (self).sessions@[j];
                    if o.id@ == session_id@ {
                        n.id@ == o.id@ && n.start_time == o.start_time && n.seed_urls@
                            == o.seed_urls@ && n.config@ == o.config@ && n.end_time == Some(now)
                            && n.status@ == status@
                    } else {
                        n.id@ == o.id@ && n.start_time == o.start_time && n.seed_urls@
                            == o.seed_urls@ && n.config@ == o.config@ && n.end_time == o.end_time
                            && n.status@ == o.status@
                    }
                },
            final (self).pages@ == old(self).pages@,
            final (self).errors@ == old(self).errors@,
            final (self).backlinks@ == old(self).backlinks@,
            final (self).seeds@ == old(self).seeds@,
            final (self).domain_scores@ == old(self).domain_scores@,
            final (self).pagerank_scores@ == old(self).pagerank_scores@,
    {
        let sid = chars_of(session_id);
        let mut out: Vec<CrawlSession> = Vec::new();
        let mut i: usize = 0;
        while i < self.sessions.len()
            invariant
                sid@ == session_id@,
                i <= self.sessions@.len(),
                out@.len() == i,
                forall|j: int|
                    0 <= j < i ==> {
                        let o = self.sessions@[j];
                        let n = #[trigger] out@[j];
                        if o.id@ == session_id@ {
                            n.id@ == o.id@ && n.start_time == o.start_time && n.seed_urls@
                                == o.seed_urls@ && n.config@ == o.config@ && n.end_time == Some(
                                now,
                            ) && n.status@ == status@
                        } else {
                            n.id@ == o.id@ && n.start_time == o.start_time && n.seed_urls@
                                == o.seed_urls@ && n.config@ == o.config@ && n.end_time
                                == o.end_time && n.status@ == o.status@
                        }
                    },
            decreases self.sessions@.len() - i,
        {
            let s = &self.sessions[i];
            let cid = chars_of(s.id.as_str());
            let seeds2 = clone_string_vec(&s.seed_urls);
            if eq_chars(&cid, &sid) {
                let mut st = String::new();
                st.append(status);
                let n = CrawlSession {
                    id: s.id.clone(),
                    start_time: s.start_time,
                    seed_urls: seeds2,
                    config: s.config.clone(),
                    end_time: Some(now),
                    status: st,
                };
                out.push(n);
            } else {
                let mut st = String::new();
                st.append(s.status.as_str());
                let n = CrawlSession {
                    id: s.id.clone(),
                    start_time: s.start_time,
                    seed_urls: seeds2,
                    config: s.config.clone(),
                    end_time: s.end_time,
                    status: st,
                };
                out.push(n);
            }
            i = i + 1;
        }
        self.sessions = out;
        proof {
            assert forall|i2: int|
                0 <= i2 < self.pages@.len() implies session_exists(
                self.sessions@,
                #[trigger] self.pages@[i2].session_id@,
            ) by {
                let j = choose|j: int|
                    0 <= j < old(self).sessions@.len() && old(self).sessions@[j].id@
                        == self.pages@[i2].session_id@;
                assert(self.sessions@[j].id@ == self.pages@[i2].session_id@);
            }
        }
    }

    /// How many of the first `n` page rows belong to `sid`.
    pub open spec fn page_count_rec(pages: Seq<PageRow>, sid: Seq<char>, n: int) -> nat
        recommends
            n <= pages.len(),
        decreases n,
    {
        if n <= 0 {
            0
        } else {
            Catalog::page_count_rec(pages, sid, n - 1) + if pages[n - 1].session_id@ == sid {
                1nat
            } else {
                0nat
            }
        }
    }

    /// How many of the first `n` error rows belong to `sid`.
    pub open spec fn error_count_rec(errors: Seq<ErrorRow>, sid: Seq<char>, n: int) -> nat
        recommends
            n <= errors.len(),
        decreases n,
    {
        if n <= 0 {
            0
        } else {
            Catalog::error_count_rec(errors, sid, n - 1) + if errors[n - 1].session_id@ == sid {
                1nat
            } else {
                0nat
            }
        }
    }

    /// The page and error counts of the session `session_id`.
    pub fn get_crawl_summary(&self, session_id: &str) -> (r: CrawlSummary)
        ensures
            r.pages_crawled == Catalog::page_count_rec(
                self.pages@,
                session_id@,
                self.pages@.len() as int,
            ),
            r.errors == Catalog::error_count_rec(
                self.errors@,
                session_id@,
                self.errors@.len() as int,
            ),
    {
        let sid = chars_of(session_id);
        let mut pages_crawled: usize = 0;
        let mut i: usize = 0;
        while i < self.pages.len()
            invariant
                sid@ == session_id@,
                i <= self.pages@.len(),
                pages_crawled == Catalog::page_count_rec(self.pages@, session_id@, i as int),
                pages_crawled <= i,
            decreases self.pages@.len() - i,
        {
            let rs = chars_of(self.pages[i].session_id.as_str());
            if eq_chars(&rs, &sid) {
                pages_crawled = pages_crawled + 1;
            }
            i = i + 1;
        }
        let mut errors: usize = 0;
        let mut k: usize = 0;
        while k < self.errors.len()
            invariant
                sid@ == session_id@,
                k <= self.errors@.len(),
                errors == Catalog::error_count_rec(self.errors@, session_id@, k as int),
                errors <= k,
            decreases self.errors@.len() - k,
        {
            let rs = chars_of(self.errors[k].session_id.as_str());
            if eq_chars(&rs, &sid) {
                errors = errors + 1;
            }
            k = k + 1;
        }
        CrawlSummary { pages_crawled, errors }
    }
}

/// An element-for-element copy of a vector of strings.
pub fn clone_string_vec(v: &Vec<String>) -> (r: Vec<String>)
    ensures
        r@.len() == v@.len(),
        forall|i: int| 0 <= i < v@.len() ==> r@[i] == v@[i],
        r@ == v@,
{
    let mut r: Vec<String> = Vec::new();
    let mut i: usize = 0;
    while i < v.len()
        invariant
            i <= v@.len(),
            r@.len() == i,
            forall|j: int| 0 <= j < i ==> r@[j] == v@[j],
        decreases v@.len() - i,
    {
        r.push(v[i].clone());
        i = i + 1;
    }
    proof {
        assert(r@ =~= v@);
    }
    r
}

/// The index of the first row of `rows[i..]` sharing `b`'s key, or -1.
pub open spec fn backlink_key_index(rows: Seq<BacklinkData>, b: BacklinkData, i: int) -> int
    decreases rows.len() - i,
{
    if i < 0 || i >= rows.len() {
        -1
    } else if same_backlink_key(rows[i], b) {
        i
    } else {
        backlink_key_index(rows, b, i + 1)
    }
}

/// `rows` with `b` written: the first row sharing its key replaced, or `b`
/// appended where no row does.
pub open spec fn upsert_backlink(rows: Seq<BacklinkData>, b: BacklinkData) -> Seq<BacklinkData> {
    let idx = backlink_key_index(rows, b, 0);
    if idx >= 0 {
        rows.update(idx, b)
    } else {
        rows.push(b)
    }
}

/// `rows` with the first `k` of `items` written in order.
pub open spec fn upsert_backlinks_rec(
    rows: Seq<BacklinkData>,
    items: Seq<BacklinkData>,
    k: int,
) -> Seq<BacklinkData>
    recommends
        k <= items.len(),
    decreases k,
{
    if k <= 0 {
        rows
    } else {
        upsert_backlink(upsert_backlinks_rec(rows, items, k - 1), items[k - 1])
    }
}

/// No row of `rows[i..]` shares `b`'s key when the search came back empty.
proof fn lemma_backlink_key_index_none(rows: Seq<BacklinkData>, b: BacklinkData, i: int)
    requires
        0 <= i <= rows.len(),
        backlink_key_index(rows, b, i) == -1,
    ensures
        forall|m: int| i <= m < rows.len() ==> !same_backlink_key(rows[m], b),
    decreases rows.len() - i,
{
    if i < rows.len() {
        lemma_backlink_key_index_none(rows, b, i + 1);
    }
}

impl Catalog {
    /// Writes each of `backlinks` into the store: a backlink whose source,
    /// target and anchor are already present replaces that row, any other
    /// is appended.
    pub fn store_backlinks(&mut self, backlinks: &Vec<BacklinkData>)
        requires
            old(self).well_formed(),
        ensures
            final (self).well_formed(),
            final (self).backlinks@ == upsert_backlinks_rec(
                old(self).backlinks@,
                backlinks@,
                backlinks@.len() as int,
            ),
            final (self).sessions@ == old(self).sessions@,
            final (self).pages@ == old(self).pages@,
            final (self).errors@ == old(self).errors@,
            final (self).seeds@ == old(self).seeds@,
            final (self).domain_scores@ == old(self).domain_scores@,
            final (self).pagerank_scores@ == old(self).pagerank_scores@,
    {
        let mut k: usize = 0;
        while k < backlinks.len()
            invariant
                self.well_formed(),
                k <= backlinks@.len(),
                self.backlinks@ == upsert_backlinks_rec(
                    old(self).backlinks@,
                    backlinks@,
                    k as int,
                ),
                self.sessions@ == old(self).sessions@,
                self.pages@ == old(self).pages@,
                self.errors@ == old(self).errors@,
                self.seeds@ == old(self).seeds@,
                self.domain_scores@ == old(self).domain_scores@,
                self.pagerank_scores@ == old(self).pagerank_scores@,
            decreases backlinks@.len() - k,
        {
            let ghost rows0 = self.backlinks@;
            let b = &backlinks[k];
            let bs = chars_of(b.source_url.as_str());
            let bt = chars_of(b.target_url.as_str());
            let ba = chars_of(b.anchor_text.as_str());
            let mut idx: usize = 0;
            let mut found = false;
            while idx < self.backlinks.len() && !found
                invariant
                    k < backlinks@.len(),
                    bs@ == backlinks@[k as int].source_url@,
                    bt@ == backlinks@[k as int].target_url@,
                    ba@ == backlinks@[k as int].anchor_text@,
                    rows0 == self.backlinks@,
                    idx <= rows0.len(),
                    !found ==> backlink_key_index(rows0, backlinks@[k as int], 0)
                        == backlink_key_index(rows0, backlinks@[k as int], idx as int),
                    found ==> idx < rows0.len() && backlink_key_index(
                        rows0,
                        backlinks@[k as int],
                        0,
                    ) == idx as int && same_backlink_key(rows0[idx as int], backlinks@[k as int]),
                decreases rows0.len() - idx + if found {
                    0int
                } else {
                    1int
                },
            {
                let rs = chars_of(self.backlinks[idx].source_url.as_str());
                let rt = chars_of(self.backlinks[idx].target_url.as_str());
                let ra = chars_of(self.backlinks[idx].anchor_text.as_str());
                if eq_chars(&rs, &bs) && eq_chars(&rt, &bt) && eq_chars(&ra, &ba) {
                    found = true;
                } else {
                    idx = idx + 1;
                }
            }
            if found {
                let replacement = clone_backlink(b);
                self.backlinks.set(idx, replacement);
                proof {
                    let bk = backlinks@[k as int];
                    assert(same_backlink_key(rows0[idx as int], bk));
                    assert(self.backlinks@ == upsert_backlink(rows0, bk));
                    assert forall|i2: int, j2: int|
                        0 <= i2 < j2 < self.backlinks@.len() implies !same_backlink_key(
                        self.backlinks@[i2],
                        self.backlinks@[j2],
                    ) by {
                        assert(!same_backlink_key(rows0[i2], rows0[j2]));
                    }
                }
            } else {
                let appended = clone_backlink(b);
                self.backlinks.push(appended);
                proof {
                    let bk = backlinks@[k as int];
                    assert(backlink_key_index(rows0, bk, rows0.len() as int) == -1);
                    assert(self.backlinks@ == upsert_backlink(rows0, bk));
                    lemma_backlink_key_index_none(rows0, bk, 0);
                    assert forall|i2: int, j2: int|
                        0 <= i2 < j2 < self.backlinks@.len() implies !same_backlink_key(
                        self.backlinks@[i2],
                        self.backlinks@[j2],
                    ) by {
                        if j2 < rows0.len() {
                            assert(!same_backlink_key(rows0[i2], rows0[j2]));
                        } else {
                            assert(!same_backlink_key(rows0[i2], bk));
                        }
                    }
                }
            }
            k = k + 1;
        }
    }

    /// The first row of `pages` carrying session `sid` and URL `url`,
    /// scanning from `i`.
    pub open spec fn find_page_from(pages: Seq<PageRow>, sid: Seq<char>, url: Seq<char>, i: int)
        -> Option<PageRow>
        decreases pages.len() - i,
    {
        if i < 0 || i >= pages.len() {
            None
        } else if pages[i].session_id@ == sid && pages[i].page.url@ == url {
            Some(pages[i])
        } else {
            Catalog::find_page_from(pages, sid, url, i + 1)
        }
    }

    /// The row of `pages` carrying session `sid` and URL `url`.
    pub open spec fn find_page(pages: Seq<PageRow>, sid: Seq<char>, url: Seq<char>) -> Option<
        PageRow,
    > {
        Catalog::find_page_from(pages, sid, url, 0)
    }

    /// The stored page of the session `session_id` for `url`, where there
    /// is one.
    pub fn get_page(&self, session_id: &str, url: &str) -> (r: Option<&CrawledPage>)
        ensures
            match Catalog::find_page(self.pages@, session_id@, url@) {
                Some(row) => r matches Some(p) && *p == row.page,
                None => r is None,
            },
    {
        let sid = chars_of(session_id);
        let uc = chars_of(url);
        let mut i: usize = 0;
        while i < self.pages.len()
            invariant
                sid@ == session_id@,
                uc@ == url@,
                i <= self.pages@.len(),
                Catalog::find_page(self.pages@, session_id@, url@) == Catalog::find_page_from(
                    self.pages@,
                    session_id@,
                    url@,
                    i as int,
                ),
            decreases self.pages@.len() - i,
        {
            let rs = chars_of(self.pages[i].session_id.as_str());
            let ru = chars_of(self.pages[i].page.url.as_str());
            if eq_chars(&rs, &sid) && eq_chars(&ru, &uc) {
                return Some(&self.pages[i].page);
            }
            i = i + 1;
        }
        None
    }
}

/// Scanning past rows that do not match leaves the find result unchanged.
proof fn lemma_find_page_hits(pages: Seq<PageRow>, j: int, i: int)
    requires
        0 <= i <= j < pages.len(),
        forall|m: int|
            i <= m < j ==> !(pages[m].session_id@ == pages[j].session_id@ && pages[m].page.url@
                == pages[j].page.url@),
    ensures
        Catalog::find_page_from(pages, pages[j].session_id@, pages[j].page.url@, i) == Some(
            pages[j],
        ),
    decreases j - i,
{
    if i < j {
        lemma_find_page_hits(pages, j, i + 1);
    }
}

/// Reading back a stored page returns it unchanged: in a well-formed
/// catalog, looking any page row up by its session and URL yields exactly
/// that row, every field included.
pub proof fn lemma_page_round_trip(c: Catalog, j: int)
    requires
        c.well_formed(),
        0 <= j < c.pages@.len(),
    ensures
        Catalog::find_page(c.pages@, c.pages@[j].session_id@, c.pages@[j].page.url@) == Some(
            c.pages@[j],
        ),
{
    lemma_find_page_hits(c.pages@, j, 0);
}

/// The key of one score table row matches `d`.
pub open spec fn domain_key_index(rows: Seq<DomainScore>, d: Seq<char>, i: int) -> int
    decreases rows.len() - i,
{
    if i < 0 || i >= rows.len() {
        -1
    } else if rows[i].domain@ == d {
        i
    } else {
        domain_key_index(rows, d, i + 1)
    }
}

/// `rows` with the score `x` written under its domain: replaced where the
/// domain is present, appended where it is not.
pub open spec fn upsert_domain_score(rows: Seq<DomainScore>, x: DomainScore) -> Seq<DomainScore> {
    let idx = domain_key_index(rows, x.domain@, 0);
    if idx >= 0 {
        rows.update(idx, x)
    } else {
        rows.push(x)
    }
}

/// `rows` with the first `k` of `items` written in order.
pub open spec fn upsert_domain_scores_rec(
    rows: Seq<DomainScore>,
    items: Seq<DomainScore>,
    k: int,
) -> Seq<DomainScore>
    recommends
        k <= items.len(),
    decreases k,
{
    if k <= 0 {
        rows
    } else {
        upsert_domain_score(upsert_domain_scores_rec(rows, items, k - 1), items[k - 1])
    }
}

/// No row of `rows[i..]` carries domain `d` when the search came back
/// empty.
proof fn lemma_domain_key_index_none(rows: Seq<DomainScore>, d: Seq<char>, i: int)
    requires
        0 <= i <= rows.len(),
        domain_key_index(rows, d, i) == -1,
    ensures
        forall|m: int| i <= m < rows.len() ==> rows[m].domain@ != d,
    decreases rows.len() - i,
{
    if i < rows.len() {
        lemma_domain_key_index_none(rows, d, i + 1);
    }
}

/// The index of the first row of `rows[i..]` keyed by the URL `u`, or -1.
pub open spec fn url_key_index(rows: Seq<PageRankScore>, u: Seq<char>, i: int) -> int
    decreases rows.len() - i,
{
    if i < 0 || i >= rows.len() {
        -1
    } else if rows[i].url@ == u {
        i
    } else {
        url_key_index(rows, u, i + 1)
    }
}

/// `rows` with the score `x` written under its URL: replaced where the URL
/// is present, appended where it is not.
pub open spec fn upsert_pagerank_score(rows: Seq<PageRankScore>, x: PageRankScore) -> Seq<
    PageRankScore,
> {
    let idx = url_key_index(rows, x.url@, 0);
    if idx >= 0 {
        rows.update(idx, x)
    } else {
        rows.push(x)
    }
}

/// `rows` with the first `k` of `items` written in order.
pub open spec fn upsert_pagerank_scores_rec(
    rows: Seq<PageRankScore>,
    items: Seq<PageRankScore>,
    k: int,
) -> Seq<PageRankScore>
    recommends
        k <= items.len(),
    decreases k,
{
    if k <= 0 {
        rows
    } else {
        upsert_pagerank_score(upsert_pagerank_scores_rec(rows, items, k - 1), items[k - 1])
    }
}

/// No row of `rows[i..]` carries URL `u` when the search came back empty.
proof fn lemma_url_key_index_none(rows: Seq<PageRankScore>, u: Seq<char>, i: int)
    requires
        0 <= i <= rows.len(),
        url_key_index(rows, u, i) == -1,
    ensures
        forall|m: int| i <= m < rows.len() ==> rows[m].url@ != u,
    decreases rows.len() - i,
{
    if i < rows.len() {
        lemma_url_key_index_none(rows, u, i + 1);
    }
}

/// A field-for-field copy of a domain score.
pub fn clone_domain_score(x: &DomainScore) -> (r: DomainScore)
    ensures
        r == *x,
{
    DomainScore {
        domain: x.domain.clone(),
        authority_score: x.authority_score,
        total_backlinks: x.total_backlinks,
        unique_referring_domains: x.unique_referring_domains,
        last_updated: x.last_updated,
    }
}

/// A field-for-field copy of a PageRank score.
pub fn clone_pagerank_score(x: &PageRankScore) -> (r: PageRankScore)
    ensures
        r == *x,
{
    PageRankScore {
        url: x.url.clone(),
        pagerank_score: x.pagerank_score,
        last_calculated: x.last_calculated,
    }
}

impl Catalog {
    /// Writes each domain score into the table: a score whose domain is
    /// already listed replaces that row, any other is appended.
    pub fn store_domain_scores(&mut self, scores: &Vec<DomainScore>)
        requires
            old(self).well_formed(),
        ensures
            final (self).well_formed(),
            final (self).domain_scores@ == upsert_domain_scores_rec(
                old(self).domain_scores@,
                scores@,
                scores@.len() as int,
            ),
            final (self).sessions@ == old(self).sessions@,
            final (self).pages@ == old(self).pages@,
            final (self).errors@ == old(self).errors@,
            final (self).backlinks@ == old(self).backlinks@,
            final (self).seeds@ == old(self).seeds@,
            final (self).pagerank_scores@ == old(self).pagerank_scores@,
    {
        let mut k: usize = 0;
        while k < scores.len()
            invariant
                self.well_formed(),
                k <= scores@.len(),
                self.domain_scores@ == upsert_domain_scores_rec(
                    old(self).domain_scores@,
                    scores@,
                    k as int,
                ),
                self.sessions@ == old(self).sessions@,
                self.pages@ == old(self).pages@,
                self.errors@ == old(self).errors@,
                self.backlinks@ == old(self).backlinks@,
                self.seeds@ == old(self).seeds@,
                self.pagerank_scores@ == old(self).pagerank_scores@,
            decreases scores@.len() - k,
        {
            let ghost rows0 = self.domain_scores@;
            let x = &scores[k];
            let xd = chars_of(x.domain.as_str());
            let mut idx: usize = 0;
            let mut found = false;
            while idx < self.domain_scores.len() && !found
                invariant
                    k < scores@.len(),
                    xd@ == scores@[k as int].domain@,
                    rows0 == self.domain_scores@,
                    idx <= rows0.len(),
                    !found ==> domain_key_index(rows0, scores@[k as int].domain@, 0)
                        == domain_key_index(rows0, scores@[k as int].domain@, idx as int),
                    found ==> idx < rows0.len() && domain_key_index(
                        rows0,
                        scores@[k as int].domain@,
                        0,
                    ) == idx as int && rows0[idx as int].domain@ == scores@[k as int].domain@,
                decreases rows0.len() - idx + if found {
                    0int
                } else {
                    1int
                },
            {
                let rd = chars_of(self.domain_scores[idx].domain.as_str());
                if eq_chars(&rd, &xd) {
                    found = true;
                } else {
                    idx = idx + 1;
                }
            }
            if found {
                let replacement = clone_domain_score(x);
                self.domain_scores.set(idx, replacement);
                proof {
                    let xk = scores@[k as int];
                    assert(self.domain_scores@ == upsert_domain_score(rows0, xk));
                    assert forall|i2: int, j2: int|
                        0 <= i2 < j2 < self.domain_scores@.len() implies self.domain_scores@[i2].domain@
                        != self.domain_scores@[j2].domain@ by {
                        assert(rows0[i2].domain@ != rows0[j2].domain@);
                    }
                }
            } else {
                let appended = clone_domain_score(x);
                self.domain_scores.push(appended);
                proof {
                    let xk = scores@[k as int];
                    assert(domain_key_index(rows0, xk.domain@, rows0.len() as int) == -1);
                    assert(self.domain_scores@ == upsert_domain_score(rows0, xk));
                    lemma_domain_key_index_none(rows0, xk.domain@, 0);
                    assert forall|i2: int, j2: int|
                        0 <= i2 < j2 < self.domain_scores@.len() implies self.domain_scores@[i2].domain@
                        != self.domain_scores@[j2].domain@ by {
                        if j2 < rows0.len() {
                            assert(rows0[i2].domain@ != rows0[j2].domain@);
                        } else {
                            assert(rows0[i2].domain@ != xk.domain@);
                        }
                    }
                }
            }
            k = k + 1;
        }
    }

    /// Writes each PageRank score into the table: a score whose URL is
    /// already listed replaces that row, any other is appended.
    pub fn store_pagerank_scores(&mut self, scores: &Vec<PageRankScore>)
        requires
            old(self).well_formed(),
        ensures
            final (self).well_formed(),
            final (self).pagerank_scores@ == upsert_pagerank_scores_rec(
                old(self).pagerank_scores@,
                scores@,
                scores@.len() as int,
            ),
            final (self).sessions@ == old(self).sessions@,
            final (self).pages@ == old(self).pages@,
            final (self).errors@ == old(self).errors@,
            final (self).backlinks@ == old(self).backlinks@,
            final (self).seeds@ == old(self).seeds@,
            final (self).domain_scores@ == old(self).domain_scores@,
    {
        let mut k: usize = 0;
        while k < scores.len()
            invariant
                self.well_formed(),
                k <= scores@.len(),
                self.pagerank_scores@ == upsert_pagerank_scores_rec(
                    old(self).pagerank_scores@,
                    scores@,
                    k as int,
                ),
                self.sessions@ == old(self).sessions@,
                self.pages@ == old(self).pages@,
                self.errors@ == old(self).errors@,
                self.backlinks@ == old(self).backlinks@,
                self.seeds@ == old(self).seeds@,
                self.domain_scores@ == old(self).domain_scores@,
            decreases scores@.len() - k,
        {
            let ghost rows0 = self.pagerank_scores@;
            let x = &scores[k];
            let xu = chars_of(x.url.as_str());
            let mut idx: usize = 0;
            let mut found = false;
            while idx < self.pagerank_scores.len() && !found
                invariant
                    k < scores@.len(),
                    xu@ == scores@[k as int].url@,
                    rows0 == self.pagerank_scores@,
                    idx <= rows0.len(),
                    !found ==> url_key_index(rows0, scores@[k as int].url@, 0) == url_key_index(
                        rows0,
                        scores@[k as int].url@,
                        idx as int,
                    ),
                    found ==> idx < rows0.len() && url_key_index(rows0, scores@[k as int].url@, 0)
                        == idx as int && rows0[idx as int].url@ == scores@[k as int].url@,
                decreases rows0.len() - idx + if found {
                    0int
                } else {
                    1int
                },
            {
                let ru = chars_of(self.pagerank_scores[idx].url.as_str());
                if eq_chars(&ru, &xu) {
                    found = true;
                } else {
                    idx = idx + 1;
                }
            }
            if found {
                let replacement = clone_pagerank_score(x);
                self.pagerank_scores.set(idx, replacement);
                proof {
                    let xk = scores@[k as int];
                    assert(self.pagerank_scores@ == upsert_pagerank_score(rows0, xk));
                    assert forall|i2: int, j2: int|
                        0 <= i2 < j2 < self.pagerank_scores@.len() implies self.pagerank_scores@[i2].url@
                        != self.pagerank_scores@[j2].url@ by {
                        assert(rows0[i2].url@ != rows0[j2].url@);
                    }
                }
            } else {
                let appended = clone_pagerank_score(x);
                self.pagerank_scores.push(appended);
                proof {
                    let xk = scores@[k as int];
                    assert(url_key_index(rows0, xk.url@, rows0.len() as int) == -1);
                    assert(self.pagerank_scores@ == upsert_pagerank_score(rows0, xk));
                    lemma_url_key_index_none(rows0, xk.url@, 0);
                    assert forall|i2: int, j2: int|
                        0 <= i2 < j2 < self.pagerank_scores@.len() implies self.pagerank_scores@[i2].url@
                        != self.pagerank_scores@[j2].url@ by {
                        if j2 < rows0.len() {
                            assert(rows0[i2].url@ != rows0[j2].url@);
                        } else {
                            assert(rows0[i2].url@ != xk.url@);
                        }
                    }
                }
            }
            k = k + 1;
        }
    }
}

/// Whether some seed of `seeds` carries the URL `u`.
pub open spec fn seed_exists(seeds: Seq<SeedUrl>, u: Seq<char>) -> bool {
    exists|i: int| 0 <= i < seeds.len() && seeds[i].url@ == u
}

/// The URLs of `urls[k..]` that are new: neither among `existing` nor
/// repeated earlier in the slice, in order.
pub open spec fn new_urls_rec(existing: Seq<Seq<char>>, urls: Seq<Seq<char>>, k: int) -> Seq<
    Seq<char>,
>
    recommends
        0 <= k <= urls.len(),
    decreases urls.len() - k,
{
    if k < 0 || k >= urls.len() {
        Seq::empty()
    } else if existing.contains(urls[k]) {
        new_urls_rec(existing, urls, k + 1)
    } else {
        seq![urls[k]] + new_urls_rec(existing.push(urls[k]), urls, k + 1)
    }
}

/// Strict order on seeds as the crawler drains them: higher priority
/// first, then the never-crawled, then the least recently crawled.
pub open spec fn seed_before(a: SeedUrl, b: SeedUrl) -> bool {
    a.priority > b.priority || (a.priority == b.priority && seed_time_lt(
        a.last_crawled,
        b.last_crawled,
    ))
}

/// `None` (never crawled) sorts before any time; times sort ascending.
pub open spec fn seed_time_lt(a: Option<i64>, b: Option<i64>) -> bool {
    match a {
        Option::None => b is Some,
        Option::Some(x) => match b {
            Option::None => false,
            Option::Some(y) => x < y,
        },
    }
}

/// Where `x` enters the sorted run `s`, scanning from `i`: before the
/// first element it strictly precedes.
pub open spec fn seed_pos_rec(s: Seq<SeedUrl>, x: SeedUrl, i: int) -> int
    decreases s.len() - i,
{
    if i < 0 || i >= s.len() {
        s.len() as int
    } else if seed_before(x, s[i]) {
        i
    } else {
        seed_pos_rec(s, x, i + 1)
    }
}

/// `s` with `x` inserted at its sorted position.
pub open spec fn insert_seed_sorted(s: Seq<SeedUrl>, x: SeedUrl) -> Seq<SeedUrl> {
    s.insert(seed_pos_rec(s, x, 0), x)
}

/// The first `k` of `s`, insertion-sorted.
pub open spec fn sort_seeds_rec(s: Seq<SeedUrl>, k: int) -> Seq<SeedUrl>
    recommends
        k <= s.len(),
    decreases k,
{
    if k <= 0 {
        Seq::empty()
    } else {
        insert_seed_sorted(sort_seeds_rec(s, k - 1), s[k - 1])
    }
}

/// All of `s`, sorted by priority then recency.
pub open spec fn sorted_seeds_spec(s: Seq<SeedUrl>) -> Seq<SeedUrl> {
    sort_seeds_rec(s, s.len() as int)
}

/// A sorted position is within the run.
proof fn lemma_seed_pos_bounds(s: Seq<SeedUrl>, x: SeedUrl, i: int)
    requires
        0 <= i <= s.len(),
    ensures
        i <= seed_pos_rec(s, x, i) <= s.len(),
    decreases s.len() - i,
{
    if i < s.len() && !seed_before(x, s[i]) {
        lemma_seed_pos_bounds(s, x, i + 1);
    }
}

/// Sorting keeps the length.
proof fn lemma_sort_seeds_len(s: Seq<SeedUrl>, k: int)
    requires
        0 <= k <= s.len(),
    ensures
        sort_seeds_rec(s, k).len() == k,
    decreases k,
{
    if k > 0 {
        lemma_sort_seeds_len(s, k - 1);
        lemma_seed_pos_bounds(sort_seeds_rec(s, k - 1), s[k - 1], 0);
    }
}

/// A field-for-field copy of a seed.
pub fn clone_seed(x: &SeedUrl) -> (r: SeedUrl)
    ensures
        r == *x,
{
    SeedUrl {
        url: x.url.clone(),
        added_at: x.added_at,
        priority: x.priority,
        last_crawled: x.last_crawled,
        crawl_count: x.crawl_count,
    }
}

/// Whether `a` drains strictly before `b`.
pub fn seed_before_exec(a: &SeedUrl, b: &SeedUrl) -> (r: bool)
    ensures
        r == seed_before(*a, *b),
{
    if a.priority > b.priority {
        return true;
    }
    if a.priority != b.priority {
        return false;
    }
    match a.last_crawled {
        Option::None => b.last_crawled.is_some(),
        Option::Some(x) => match b.last_crawled {
            Option::None => false,
            Option::Some(y) => x < y,
        },
    }
}

impl Catalog {
    /// Adds each of `urls` as a seed with priority 1, skipping URLs
    /// already seeded; existing seeds stand unchanged.
    pub fn add_seed_urls(&mut self, urls: &Vec<String>, now: i64)
        requires
            old(self).well_formed(),
        ensures
            final (self).well_formed(),
            final (self).seeds@.len() >= old(self).seeds@.len(),
            forall|j: int|
                0 <= j < old(self).seeds@.len() ==> final (self).seeds@[j] == old(self).seeds@[j],
            final (self).seeds@.map_values(|s: SeedUrl| s.url@) == old(self).seeds@.map_values(
                |s: SeedUrl| s.url@,
            ) + new_urls_rec(
                old(self).seeds@.map_values(|s: SeedUrl| s.url@),
                urls@.map_values(|u: String| u@),
                0,
            ),
            forall|j: int|
                old(self).seeds@.len() <= j < final (self).seeds@.len() ==> {
                    let n = #[trigger] final (self).seeds@[j];
                    n.added_at == now && n.priority == 1 && n.last_crawled is None
                        && n.crawl_count == 0
                },
            forall|k: int|
                0 <= k < urls@.len() ==> seed_exists(final (self).seeds@, #[trigger] urls@[k]@),
            final (self).sessions@ == old(self).sessions@,
            final (self).pages@ == old(self).pages@,
            final (self).errors@ == old(self).errors@,
            final (self).backlinks@ == old(self).backlinks@,
            final (self).domain_scores@ == old(self).domain_scores@,
            final (self).pagerank_scores@ == old(self).pagerank_scores@,
    {
        let ghost us = urls@.map_values(|u: String| u@);
        let ghost base = old(self).seeds@.map_values(|s: SeedUrl| s.url@);
        let mut k: usize = 0;
        proof {
            assert(self.seeds@.map_values(|s: SeedUrl| s.url@) =~= base + new_urls_rec(
                base,
                us,
                us.len() as int,
            ));
        }
        while k < urls.len()
            invariant
                self.well_formed(),
                us == urls@.map_values(|u: String| u@),
                base == old(self).seeds@.map_values(|s: SeedUrl| s.url@),
                k <= us.len(),
                self.seeds@.len() >= old(self).seeds@.len(),
                forall|j: int|
                    0 <= j < old(self).seeds@.len() ==> self.seeds@[j] == old(self).seeds@[j],
                base + new_urls_rec(base, us, 0) == self.seeds@.map_values(|s: SeedUrl| s.url@)
                    + new_urls_rec(self.seeds@.map_values(|s: SeedUrl| s.url@), us, k as int),
                forall|j: int|
                    old(self).seeds@.len() <= j < self.seeds@.len() ==> {
                        let n = #[trigger] self.seeds@[j];
                        n.added_at == now && n.priority == 1 && n.last_crawled is None
                            && n.crawl_count == 0
                    },
                forall|m: int|
                    0 <= m < k ==> seed_exists(self.seeds@, #[trigger] urls@[m]@),
                self.sessions@ == old(self).sessions@,
                self.pages@ == old(self).pages@,
                self.errors@ == old(self).errors@,
                self.backlinks@ == old(self).backlinks@,
                self.domain_scores@ == old(self).domain_scores@,
                self.pagerank_scores@ == old(self).pagerank_scores@,
            decreases us.len() - k,
        {
            let ghost seeds0 = self.seeds@;
            let ghost cur = seeds0.map_values(|s: SeedUrl| s.url@);
            let uc = chars_of(urls[k].as_str());
            let mut present = false;
            let mut i: usize = 0;
            while i < self.seeds.len()
                invariant
                    uc@ == urls@[k as int]@,
                    seeds0 == self.seeds@,
                    cur == seeds0.map_values(|s: SeedUrl| s.url@),
                    i <= seeds0.len(),
                    present == exists|j: int| 0 <= j < i && #[trigger] seeds0[j].url@ == uc@,
                decreases seeds0.len() - i,
            {
                let su = chars_of(self.seeds[i].url.as_str());
                if eq_chars(&su, &uc) {
                    present = true;
                }
                i = i + 1;
            }
            proof {
                assert(present == cur.contains(uc@)) by {
                    if present {
                        let j = choose|j: int| 0 <= j < seeds0.len() && seeds0[j].url@ == uc@;
                        assert(cur[j] == uc@);
                    } else if cur.contains(uc@) {
                        let j = choose|j: int| 0 <= j < cur.len() && cur[j] == uc@;
                        assert(seeds0[j].url@ == uc@);
                    }
                }
            }
            if !present {
                let seed = SeedUrl {
                    url: crate::text::string_from_chars(&uc),
                    added_at: now,
                    priority: 1,
                    last_crawled: None,
                    crawl_count: 0,
                };
                self.seeds.push(seed);
                proof {
                    assert(self.seeds@.map_values(|s: SeedUrl| s.url@) =~= cur.push(uc@));
                    assert forall|i2: int, j2: int|
                        0 <= i2 < j2 < self.seeds@.len() implies self.seeds@[i2].url@
                        != self.seeds@[j2].url@ by {
                        if j2 < seeds0.len() {
                            assert(seeds0[i2].url@ != seeds0[j2].url@);
                        } else {
                            assert(!cur.contains(uc@));
                            assert(cur[i2] == seeds0[i2].url@);
                        }
                    }
                    assert(new_urls_rec(cur, us, k as int) =~= seq![uc@] + new_urls_rec(
                        cur.push(uc@),
                        us,
                        k + 1 as int,
                    ));
                    assert(cur + new_urls_rec(cur, us, k as int) =~= cur.push(uc@) + new_urls_rec(
                        cur.push(uc@),
                        us,
                        k + 1 as int,
                    ));
                }
            }
            proof {
                assert forall|m: int| 0 <= m < k + 1 implies seed_exists(
                    self.seeds@,
                    #[trigger] urls@[m]@,
                ) by {
                    if m < k {
                        let j = choose|j: int|
                            0 <= j < seeds0.len() && #[trigger] seeds0[j].url@ == urls@[m]@;
                        assert(self.seeds@[j].url@ == urls@[m]@);
                    } else {
                        if present {
                            let j = choose|j: int|
                                0 <= j < seeds0.len() && #[trigger] seeds0[j].url@ == uc@;
                            assert(self.seeds@[j].url@ == uc@);
                        } else {
                            assert(self.seeds@[self.seeds@.len() - 1].url@ == uc@);
                        }
                    }
                }
            }
            k = k + 1;
        }
        proof {
            assert(new_urls_rec(self.seeds@.map_values(|s: SeedUrl| s.url@), us, us.len() as int)
                =~= Seq::<Seq<char>>::empty());
            assert(self.seeds@.map_values(|s: SeedUrl| s.url@) + Seq::<Seq<char>>::empty()
                =~= self.seeds@.map_values(|s: SeedUrl| s.url@));
        }
    }

    /// Marks the seed `url` as crawled at `now` and counts the crawl; a
    /// crawl count at its ceiling stays there.
    pub fn update_seed_url_crawled(&mut self, url: &str, now: i64)
        requires
            old(self).well_formed(),
        ensures
            final (self).well_formed(),
            final (self).seeds@.len() == old(self).seeds@.len(),
            forall|j: int|
                0 <= j < old(self).seeds@.len() ==> {
                    let o = old(self).seeds@[j];
                    let n = #[trigger] final (self).seeds@[j];
                    if o.url@ == url@ {
                        n.url@ == o.url@ && n.added_at == o.added_at && n.priority == o.priority
                            && n.last_crawled == Some(now) && n.crawl_count == (if o.crawl_count
                            < i32::MAX {
                            o.crawl_count + 1int
                        } else {
                            o.crawl_count as int
                        })
                    } else {
                        n == o
                    }
                },
            final (self).sessions@ == old(self).sessions@,
            final (self).pages@ == old(self).pages@,
            final (self).errors@ == old(self).errors@,
            final (self).backlinks@ == old(self).backlinks@,
            final (self).domain_scores@ == old(self).domain_scores@,
            final (self).pagerank_scores@ == old(self).pagerank_scores@,
    {
        let uc = chars_of(url);
        let mut i: usize = 0;
        while i < self.seeds.len()
            invariant
                old(self).well_formed(),
                uc@ == url@,
                i <= self.seeds@.len(),
                self.seeds@.len() == old(self).seeds@.len(),
                forall|j: int|
                    0 <= j < i ==> {
                        let o = old(self).seeds@[j];
                        let n = #[trigger] self.seeds@[j];
                        if o.url@ == url@ {
                            n.url@ == o.url@ && n.added_at == o.added_at && n.priority
                                == o.priority && n.last_crawled == Some(now) && n.crawl_count == (
                            if o.crawl_count < i32::MAX {
                                o.crawl_count + 1int
                            } else {
                                o.crawl_count as int
                            })
                        } else {
                            n == o
                        }
                    },
                forall|j: int| i <= j < self.seeds@.len() ==> self.seeds@[j] == old(self).seeds@[j],
                self.sessions@ == old(self).sessions@,
                self.pages@ == old(self).pages@,
                self.errors@ == old(self).errors@,
                self.backlinks@ == old(self).backlinks@,
                self.domain_scores@ == old(self).domain_scores@,
                self.pagerank_scores@ == old(self).pagerank_scores@,
            decreases self.seeds@.len() - i,
        {
            let su = chars_of(self.seeds[i].url.as_str());
            if eq_chars(&su, &uc) {
                let old_seed = &self.seeds[i];
                let updated = SeedUrl {
                    url: old_seed.url.clone(),
                    added_at: old_seed.added_at,
                    priority: old_seed.priority,
                    last_crawled: Some(now),
                    crawl_count: if old_seed.crawl_count < i32::MAX {
                        old_seed.crawl_count + 1
                    } else {
                        old_seed.crawl_count
                    },
                };
                self.seeds.set(i, updated);
                proof {
                    assert forall|i2: int, j2: int|
                        0 <= i2 < j2 < self.seeds@.len() implies self.seeds@[i2].url@
                        != self.seeds@[j2].url@ by {
                        assert(old(self).seeds@[i2].url@ != old(self).seeds@[j2].url@);
                        assert(self.seeds@[i2].url@ == old(self).seeds@[i2].url@);
                        assert(self.seeds@[j2].url@ == old(self).seeds@[j2].url@);
                    }
                }
            }
            i = i + 1;
        }
    }

    /// The seeds most worth crawling: every seed, sorted by priority and
    /// then least-recent crawl, never-crawled first, cut to `limit`.
    pub fn get_seed_urls(&self, limit: usize) -> (r: Vec<SeedUrl>)
        ensures
            r@ == if limit as int <= self.seeds@.len() {
                sorted_seeds_spec(self.seeds@).take(limit as int)
            } else {
                sorted_seeds_spec(self.seeds@)
            },
    {
        let ghost s = self.seeds@;
        let mut out: Vec<SeedUrl> = Vec::new();
        let mut k: usize = 0;
        proof {
            lemma_sort_seeds_len(s, s.len() as int);
            assert(out@ =~= sort_seeds_rec(s, 0));
        }
        while k < self.seeds.len()
            invariant
                s == self.seeds@,
                k <= s.len(),
                out@ == sort_seeds_rec(s, k as int),
                out@.len() == k,
            decreases s.len() - k,
        {
            let ghost run0 = out@;
            let x = clone_seed(&self.seeds[k]);
            let mut pos: usize = 0;
            while pos < out.len() && !seed_before_exec(&x, &out[pos])
                invariant
                    run0 == out@,
                    x == s[k as int],
                    pos <= out@.len(),
                    seed_pos_rec(out@, x, 0) == seed_pos_rec(out@, x, pos as int),
                decreases out@.len() - pos,
            {
                pos = pos + 1;
            }
            proof {
                assert(seed_pos_rec(out@, x, 0) == pos as int);
            }
            out.insert(pos, x);
            proof {
                assert(out@ == insert_seed_sorted(run0, s[k as int]));
                lemma_sort_seeds_len(s, k + 1);
            }
            k = k + 1;
        }
        proof {
            assert(out@ == sorted_seeds_spec(s));
        }
        out.truncate(limit);
        proof {
            if limit as int <= s.len() {
                assert(out@ == sorted_seeds_spec(s).subrange(0, limit as int));
                assert(sorted_seeds_spec(s).take(limit as int) == sorted_seeds_spec(s).subrange(
                    0,
                    limit as int,
                ));
            }
        }
        out
    }
}

/// Two page records carrying the same data, field for field.
pub open spec fn page_like(a: CrawledPage, b: CrawledPage) -> bool {
    &&& a.url == b.url
    &&& a.original_url == b.original_url
    &&& a.redirect_chain@ == b.redirect_chain@
    &&& a.title == b.title
    &&& a.meta_description == b.meta_description
    &&& a.content_text == b.content_text
    &&& a.content_html == b.content_html
    &&& a.content_hash == b.content_hash
    &&& a.word_count == b.word_count
    &&& a.page_size == b.page_size
    &&& a.http_status_code == b.http_status_code
    &&& a.response_time_ms == b.response_time_ms
    &&& a.language == b.language
    &&& a.charset == b.charset
    &&& a.h1_tags@ == b.h1_tags@
    &&& a.h2_tags@ == b.h2_tags@
    &&& a.meta_keywords@ == b.meta_keywords@
    &&& a.canonical_url == b.canonical_url
    &&& a.robots_meta == b.robots_meta
    &&& a.internal_links_count == b.internal_links_count
    &&& a.external_links_count == b.external_links_count
    &&& a.images_count == b.images_count
    &&& a.crawl_time == b.crawl_time
}

/// A field-for-field copy of a page record.
pub fn clone_page(p: &CrawledPage) -> (r: CrawledPage)
    ensures
        page_like(r, *p),
{
    CrawledPage {
        url: p.url.clone(),
        original_url: p.original_url.clone(),
        redirect_chain: clone_string_vec(&p.redirect_chain),
        title: p.title.clone(),
        meta_description: p.meta_description.clone(),
        content_text: p.content_text.clone(),
        content_html: p.content_html.clone(),
        content_hash: p.content_hash.clone(),
        word_count: p.word_count,
        page_size: p.page_size,
        http_status_code: p.http_status_code,
        response_time_ms: p.response_time_ms,
        language: p.language.clone(),
        charset: p.charset.clone(),
        h1_tags: clone_string_vec(&p.h1_tags),
        h2_tags: clone_string_vec(&p.h2_tags),
        meta_keywords: clone_string_vec(&p.meta_keywords),
        canonical_url: p.canonical_url.clone(),
        robots_meta: p.robots_meta.clone(),
        internal_links_count: p.internal_links_count,
        external_links_count: p.external_links_count,
        images_count: p.images_count,
        crawl_time: p.crawl_time,
    }
}

/// Where an entry crawled at `t` enters the newest-first index run
/// `run` over `s`, scanning from `i`.
pub open spec fn order_pos_rec(s: Seq<PageRow>, run: Seq<int>, t: i64, i: int) -> int
    decreases run.len() - i,
{
    if i < 0 || i >= run.len() {
        run.len() as int
    } else if 0 <= run[i] < s.len() && t > s[run[i]].page.crawl_time {
        i
    } else {
        order_pos_rec(s, run, t, i + 1)
    }
}

/// The indices of the first `k` rows of `s`, insertion-sorted so the
/// newest crawl time comes first.
pub open spec fn page_order_rec(s: Seq<PageRow>, k: int) -> Seq<int>
    recommends
        k <= s.len(),
    decreases k,
{
    if k <= 0 {
        Seq::empty()
    } else {
        let run = page_order_rec(s, k - 1);
        run.insert(order_pos_rec(s, run, s[k - 1].page.crawl_time, 0), k - 1)
    }
}

/// The indices of all of `s`, newest first.
pub open spec fn page_order_spec(s: Seq<PageRow>) -> Seq<int> {
    page_order_rec(s, s.len() as int)
}

/// A position in the run is within it.
proof fn lemma_order_pos_bounds(s: Seq<PageRow>, run: Seq<int>, t: i64, i: int)
    requires
        0 <= i <= run.len(),
    ensures
        i <= order_pos_rec(s, run, t, i) <= run.len(),
    decreases run.len() - i,
{
    if i < run.len() && !(0 <= run[i] < s.len() && t > s[run[i]].page.crawl_time) {
        lemma_order_pos_bounds(s, run, t, i + 1);
    }
}

/// The order over the first `k` rows has length `k` and holds only
/// indices below `k`.
proof fn lemma_page_order_bounds(s: Seq<PageRow>, k: int)
    requires
        0 <= k <= s.len(),
    ensures
        page_order_rec(s, k).len() == k,
        forall|i: int|
            0 <= i < k ==> 0 <= #[trigger] page_order_rec(s, k)[i] < k,
    decreases k,
{
    if k > 0 {
        lemma_page_order_bounds(s, k - 1);
        let run = page_order_rec(s, k - 1);
        lemma_order_pos_bounds(s, run, s[k - 1].page.crawl_time, 0);
        let p = order_pos_rec(s, run, s[k - 1].page.crawl_time, 0);
        assert forall|i: int| 0 <= i < k implies 0 <= #[trigger] page_order_rec(s, k)[i] < k by {
            if i < p {
                assert(page_order_rec(s, k)[i] == run[i]);
            } else if i == p {
                assert(page_order_rec(s, k)[i] == k - 1);
            } else {
                assert(page_order_rec(s, k)[i] == run[i - 1]);
            }
        }
    }
}
/// Backlinks ordered by discovery time, newest first.
pub open spec fn backlink_newer(a: BacklinkData, b: BacklinkData) -> bool {
    a.discovered_at > b.discovered_at
}

/// Where `x` enters the newest-first run `s`, scanning from `i`.
pub open spec fn backlink_pos_rec(s: Seq<BacklinkData>, x: BacklinkData, i: int) -> int
    decreases s.len() - i,
{
    if i < 0 || i >= s.len() {
        s.len() as int
    } else if backlink_newer(x, s[i]) {
        i
    } else {
        backlink_pos_rec(s, x, i + 1)
    }
}

/// `s` with `x` inserted at its newest-first position.
pub open spec fn insert_backlink_sorted(s: Seq<BacklinkData>, x: BacklinkData) -> Seq<
    BacklinkData,
> {
    s.insert(backlink_pos_rec(s, x, 0), x)
}

/// The backlinks among the first `n` of `rows` that point at `target`, in
/// storage order.
pub open spec fn backlinks_for_rec(rows: Seq<BacklinkData>, target: Seq<char>, n: int) -> Seq<
    BacklinkData,
>
    recommends
        n <= rows.len(),
    decreases n,
{
    if n <= 0 {
        Seq::empty()
    } else {
        let rest = backlinks_for_rec(rows, target, n - 1);
        if rows[n - 1].target_url@ == target {
            rest.push(rows[n - 1])
        } else {
            rest
        }
    }
}

/// The first `k` of `s`, insertion-sorted newest first.
pub open spec fn sort_backlinks_rec(s: Seq<BacklinkData>, k: int) -> Seq<BacklinkData>
    recommends
        k <= s.len(),
    decreases k,
{
    if k <= 0 {
        Seq::empty()
    } else {
        insert_backlink_sorted(sort_backlinks_rec(s, k - 1), s[k - 1])
    }
}

/// All of `s`, sorted newest first.
pub open spec fn sorted_backlinks_spec(s: Seq<BacklinkData>) -> Seq<BacklinkData> {
    sort_backlinks_rec(s, s.len() as int)
}

/// A sorted position is within the run.
proof fn lemma_backlink_pos_bounds(s: Seq<BacklinkData>, x: BacklinkData, i: int)
    requires
        0 <= i <= s.len(),
    ensures
        i <= backlink_pos_rec(s, x, i) <= s.len(),
    decreases s.len() - i,
{
    if i < s.len() && !backlink_newer(x, s[i]) {
        lemma_backlink_pos_bounds(s, x, i + 1);
    }
}

/// How many of the first `n` pages were fetched with a success status.
pub open spec fn success_count_rec(pages: Seq<PageRow>, n: int) -> nat
    recommends
        n <= pages.len(),
    decreases n,
{
    if n <= 0 {
        0
    } else {
        success_count_rec(pages, n - 1) + if 200 <= pages[n - 1].page.http_status_code < 300 {
            1nat
        } else {
            0nat
        }
    }
}

/// How many of the first `n` pages were crawled after `cutoff`.
pub open spec fn recent_page_count_rec(pages: Seq<PageRow>, cutoff: i64, n: int) -> nat
    recommends
        n <= pages.len(),
    decreases n,
{
    if n <= 0 {
        0
    } else {
        recent_page_count_rec(pages, cutoff, n - 1) + if pages[n - 1].page.crawl_time > cutoff {
            1nat
        } else {
            0nat
        }
    }
}

/// How many of the first `n` backlinks were discovered after `cutoff`.
pub open spec fn recent_backlink_count_rec(rows: Seq<BacklinkData>, cutoff: i64, n: int) -> nat
    recommends
        n <= rows.len(),
    decreases n,
{
    if n <= 0 {
        0
    } else {
        recent_backlink_count_rec(rows, cutoff, n - 1) + if rows[n - 1].discovered_at > cutoff {
            1nat
        } else {
            0nat
        }
    }
}

/// The distinct hosts of the successfully crawled pages among `pages[i..]`
/// whose URLs parse, appended after `acc` in order of first appearance.
pub open spec fn page_hosts_rec(pages: Seq<PageRow>, i: int, acc: Seq<Seq<char>>) -> Seq<Seq<char>>
    recommends
        0 <= i <= pages.len(),
    decreases pages.len() - i,
{
    if i < 0 || i >= pages.len() {
        acc
    } else if 200 <= pages[i].page.http_status_code < 300 && url_parses(pages[i].page.url@)
        && !acc.contains(url_host_of(pages[i].page.url@)) {
        page_hosts_rec(pages, i + 1, acc.push(url_host_of(pages[i].page.url@)))
    } else {
        page_hosts_rec(pages, i + 1, acc)
    }
}

/// The distinct hosts among the successfully crawled pages.
pub open spec fn unique_page_hosts(pages: Seq<PageRow>) -> Seq<Seq<char>> {
    page_hosts_rec(pages, 0, Seq::empty())
}

impl Catalog {
    /// The most recently crawled pages, newest first, cut to `limit`:
    /// the pages read off along the newest-first index order.
    pub fn get_recent_crawls(&self, limit: usize) -> (r: Vec<CrawledPage>)
        ensures
            r@.len() == if limit as int <= self.pages@.len() {
                limit as int
            } else {
                self.pages@.len() as int
            },
            forall|i: int|
                0 <= i < r@.len() ==> page_like(
                    #[trigger] r@[i],
                    self.pages@[page_order_spec(self.pages@)[i]].page,
                ),
{
        let ghost s = self.pages@;
        let mut run: Vec<usize> = Vec::new();
        let mut k: usize = 0;
        proof {
            lemma_page_order_bounds(s, s.len() as int);
            assert(run@.map_values(|u: usize| u as int) =~= page_order_rec(s, 0));
        }
        while k < self.pages.len()
            invariant
                s == self.pages@,
                k <= s.len(),
                run@.map_values(|u: usize| u as int) == page_order_rec(s, k as int),
                run@.len() == k,
                forall|i: int| 0 <= i < k ==> #[trigger] run@[i] < s.len(),
            decreases s.len() - k,
        {
            let ghost grun = run@.map_values(|u: usize| u as int);
            let t = self.pages[k].page.crawl_time;
            let mut pos: usize = 0;
            while pos < run.len() && !(t > self.pages[run[pos]].page.crawl_time)
                invariant
                    s == self.pages@,
                    grun == run@.map_values(|u: usize| u as int),
                    run@.len() == grun.len(),
                    forall|i: int| 0 <= i < run@.len() ==> #[trigger] run@[i] < s.len(),
                    t == s[k as int].page.crawl_time,
                    k < s.len(),
                    pos <= run@.len(),
                    order_pos_rec(s, grun, t, 0) == order_pos_rec(s, grun, t, pos as int),
                decreases run@.len() - pos,
            {
                proof {
                    assert(grun[pos as int] == run@[pos as int] as int);
                }
                pos = pos + 1;
            }
            proof {
                if pos < run.len() {
                    assert(grun[pos as int] == run@[pos as int] as int);
                }
                assert(order_pos_rec(s, grun, t, 0) == pos as int);
            }
            run.insert(pos, k);
            proof {
                assert(run@.map_values(|u: usize| u as int) =~= grun.insert(pos as int, k as int));
                lemma_page_order_bounds(s, k + 1);
            }
            k = k + 1;
        }
        run.truncate(limit);
        let ghost order = page_order_spec(s);
        proof {
            if limit as int <= s.len() {
                assert(run@ == run@.subrange(0, limit as int) || run@.len() <= limit);
            }
            assert forall|i: int| 0 <= i < run@.len() implies run@[i] as int == order[i] by {
                if limit as int <= s.len() {
                } else {
                }
            }
        }
        let mut out: Vec<CrawledPage> = Vec::new();
        let mut i: usize = 0;
        while i < run.len()
            invariant
                s == self.pages@,
                order == page_order_spec(s),
                forall|j: int| 0 <= j < run@.len() ==> #[trigger] run@[j] < s.len(),
                forall|j: int| 0 <= j < run@.len() ==> run@[j] as int == order[j],
                i <= run@.len(),
                out@.len() == i,
                forall|j: int|
                    0 <= j < i ==> page_like(#[trigger] out@[j], s[order[j]].page),
            decreases run@.len() - i,
        {
            out.push(clone_page(&self.pages[run[i]].page));
            i = i + 1;
        }
        out
    }

    /// The stored backlinks pointing at `target_url`, newest first.
    pub fn get_backlinks_for_url(&self, target_url: &str) -> (r: Vec<BacklinkData>)
        ensures
            r@ == sorted_backlinks_spec(
                backlinks_for_rec(self.backlinks@, target_url@, self.backlinks@.len() as int),
            ),
    {
        let tc = chars_of(target_url);
        let mut matching: Vec<BacklinkData> = Vec::new();
        let mut i: usize = 0;
        while i < self.backlinks.len()
            invariant
                tc@ == target_url@,
                i <= self.backlinks@.len(),
                matching@ == backlinks_for_rec(self.backlinks@, target_url@, i as int),
            decreases self.backlinks@.len() - i,
        {
            let bt = chars_of(self.backlinks[i].target_url.as_str());
            if eq_chars(&bt, &tc) {
                matching.push(clone_backlink(&self.backlinks[i]));
            }
            i = i + 1;
        }
        let ghost m = matching@;
        let mut run: Vec<BacklinkData> = Vec::new();
        let mut k: usize = 0;
        proof {
            assert(run@ =~= sort_backlinks_rec(m, 0));
        }
        while k < matching.len()
            invariant
                m == matching@,
                k <= m.len(),
                run@ == sort_backlinks_rec(m, k as int),
            decreases m.len() - k,
        {
            let ghost run0 = run@;
            let x = clone_backlink(&matching[k]);
            proof {
                assert(x == m[k as int]);
                lemma_backlink_pos_bounds(run0, x, 0);
            }
            let mut pos: usize = 0;
            while pos < run.len() && !(x.discovered_at > run[pos].discovered_at)
                invariant
                    run0 == run@,
                    x == m[k as int],
                    pos <= run@.len(),
                    backlink_pos_rec(run@, x, 0) == backlink_pos_rec(run@, x, pos as int),
                decreases run@.len() - pos,
            {
                pos = pos + 1;
            }
            proof {
                assert(backlink_pos_rec(run@, x, 0) == pos as int);
            }
            run.insert(pos, x);
            proof {
                assert(run@ == insert_backlink_sorted(run0, m[k as int]));
            }
            k = k + 1;
        }
        run
    }

    /// The dashboard counters at `now`: lifetime page and backlink counts,
    /// distinct hosts, the last hour's rates, and the mode readings and
    /// machine readings the caller supplies.
    pub fn get_dashboard_stats(
        &self,
        now: i64,
        current_mode: String,
        next_mode_switch: i64,
        database_size_bytes: u64,
        system_memory_usage: u64,
        system_cpu_usage: u64,
    ) -> (r: DashboardStats)
        requires
            now >= i64::MIN + 3600,
            self.pages@.len() <= 0x7fffffffffffffff,
            self.backlinks@.len() <= 0x7fffffffffffffff,
        ensures
            r.total_urls_crawled == success_count_rec(self.pages@, self.pages@.len() as int),
            r.total_backlinks_found == self.backlinks@.len(),
            r.unique_domains == unique_page_hosts(self.pages@).len(),
            r.crawl_rate_per_hour == recent_page_count_rec(
                self.pages@,
                (now - 3600) as i64,
                self.pages@.len() as int,
            ),
            r.backlink_rate_per_hour == recent_backlink_count_rec(
                self.backlinks@,
                (now - 3600) as i64,
                self.backlinks@.len() as int,
            ),
            r.database_size_bytes == database_size_bytes,
            r.system_memory_usage == system_memory_usage,
            r.system_cpu_usage == system_cpu_usage,
            r.last_updated == now,
            r.current_mode == current_mode,
            r.next_mode_switch == next_mode_switch,
    {
        let cutoff: i64 = now - 3600;
        let mut total_success: usize = 0;
        let mut recent_pages: usize = 0;
        let mut i: usize = 0;
        while i < self.pages.len()
            invariant
                cutoff == now - 3600,
                i <= self.pages@.len(),
                total_success == success_count_rec(self.pages@, i as int),
                recent_pages == recent_page_count_rec(self.pages@, cutoff, i as int),
                total_success <= i,
                recent_pages <= i,
            decreases self.pages@.len() - i,
        {
            let st = self.pages[i].page.http_status_code;
            if 200 <= st && st < 300 {
                total_success = total_success + 1;
            }
            if self.pages[i].page.crawl_time > cutoff {
                recent_pages = recent_pages + 1;
            }
            i = i + 1;
        }
        let mut recent_backlinks: usize = 0;
        let mut k: usize = 0;
        while k < self.backlinks.len()
            invariant
                cutoff == now - 3600,
                k <= self.backlinks@.len(),
                recent_backlinks == recent_backlink_count_rec(self.backlinks@, cutoff, k as int),
                recent_backlinks <= k,
            decreases self.backlinks@.len() - k,
        {
            if self.backlinks[k].discovered_at > cutoff {
                recent_backlinks = recent_backlinks + 1;
            }
            k = k + 1;
        }
        let mut hosts: Vec<String> = Vec::new();
        let mut h: usize = 0;
        assert(hosts@.map_values(|s: String| s@) =~= Seq::<Seq<char>>::empty());
        while h < self.pages.len()
            invariant
                h <= self.pages@.len(),
                hosts@.len() <= h,
                self.pages@.len() <= 0x7fffffffffffffff,
                unique_page_hosts(self.pages@) == page_hosts_rec(
                    self.pages@,
                    h as int,
                    hosts@.map_values(|s: String| s@),
                ),
            decreases self.pages@.len() - h,
        {
            let ghost acc0 = hosts@.map_values(|s: String| s@);
            let st = self.pages[h].page.http_status_code;
            if 200 <= st && st < 300 {
                match extract_domain(self.pages[h].page.url.as_str()) {
                    Some(host) => {
                        let hc = chars_of(host.as_str());
                        if !vec_contains_str(&hosts, &hc) {
                            hosts.push(host);
                            proof {
                                assert(hosts@.map_values(|s: String| s@) =~= acc0.push(
                                    url_host_of(self.pages@[h as int].page.url@),
                                ));
                            }
                        }
                    },
                    None => {},
                }
            }
            h = h + 1;
        }
        proof {
            assert(hosts@.map_values(|s: String| s@).len() == hosts@.len());
        }
        DashboardStats {
            total_urls_crawled: total_success as i64,
            total_backlinks_found: self.backlinks.len() as i64,
            unique_domains: hosts.len() as i64,
            crawl_rate_per_hour: recent_pages as i64,
            backlink_rate_per_hour: recent_backlinks as i64,
            database_size_bytes,
            system_memory_usage,
            system_cpu_usage,
            last_updated: now,
            current_mode,
            next_mode_switch,
        }
    }

    /// Replaces the stored dashboard counters.
    pub fn update_stats(&mut self, stats: DashboardStats)
        requires
            old(self).well_formed(),
        ensures
            final (self).well_formed(),
            final (self).stats == Some(stats),
            final (self).sessions@ == old(self).sessions@,
            final (self).pages@ == old(self).pages@,
            final (self).errors@ == old(self).errors@,
            final (self).backlinks@ == old(self).backlinks@,
            final (self).seeds@ == old(self).seeds@,
            final (self).domain_scores@ == old(self).domain_scores@,
            final (self).pagerank_scores@ == old(self).pagerank_scores@,
    {
        self.stats = Some(stats);
    }
}

/// No URL is stored twice within one session: in a well-formed catalog,
/// any two distinct page rows differ in session or in URL.
pub proof fn lemma_session_pages_unique(c: Catalog)
    requires
        c.well_formed(),
    ensures
        forall|i: int, j: int|
            0 <= i < j < c.pages@.len() ==> !(c.pages@[i].session_id@ == c.pages@[j].session_id@
                && c.pages@[i].page.url@ == c.pages@[j].page.url@),
{
}

impl Catalog {
    /// The latest crawl time among the first `n` page rows, over all URLs.
    pub open spec fn newest_crawl_rec(pages: Seq<PageRow>, n: int) -> Option<i64>
        recommends
            n <= pages.len(),
        decreases n,
    {
        if n <= 0 {
            None
        } else {
            let rest = Catalog::newest_crawl_rec(pages, n - 1);
            match rest {
                None => Some(pages[n - 1].page.crawl_time),
                Some(t) => if pages[n - 1].page.crawl_time > t {
                    Some(pages[n - 1].page.crawl_time)
                } else {
                    Some(t)
                },
            }
        }
    }

    /// Lifetime statistics: every page and error ever recorded, the store
    /// size the caller reports, and when a page was last stored.
    pub fn get_crawl_statistics(&self, database_size_bytes: u64) -> (r: crate::models::CrawlStatistics)
        ensures
            r.total_pages_crawled == self.pages@.len(),
            r.total_crawl_errors == self.errors@.len(),
            r.database_size_bytes == database_size_bytes,
            r.last_crawl_time == Catalog::newest_crawl_rec(self.pages@, self.pages@.len() as int),
    {
        let mut last: Option<i64> = None;
        let mut i: usize = 0;
        while i < self.pages.len()
            invariant
                i <= self.pages@.len(),
                last == Catalog::newest_crawl_rec(self.pages@, i as int),
            decreases self.pages@.len() - i,
        {
            let t = self.pages[i].page.crawl_time;
            last = match last {
                None => Some(t),
                Some(prev) => if t > prev {
                    Some(t)
                } else {
                    Some(prev)
                },
            };
            i = i + 1;
        }
        crate::models::CrawlStatistics {
            total_pages_crawled: self.pages.len(),
            total_crawl_errors: self.errors.len(),
            database_size_bytes,
            last_crawl_time: last,
        }
    }
}

impl Catalog {
    /// Restores one seed row, as loaded back from the durable store: the
    /// row joins the table unchanged where its URL is new, and is ignored
    /// where that URL is already seeded.
    pub fn insert_seed(&mut self, seed: SeedUrl)
        requires
            old(self).well_formed(),
        ensures
            final (self).well_formed(),
            !seed_exists(old(self).seeds@, seed.url@) ==> final (self).seeds@ == old(
                self,
            ).seeds@.push(seed),
            seed_exists(old(self).seeds@, seed.url@) ==> final (self).seeds@ == old(self).seeds@,
            final (self).sessions@ == old(self).sessions@,
            final (self).pages@ == old(self).pages@,
            final (self).errors@ == old(self).errors@,
            final (self).backlinks@ == old(self).backlinks@,
            final (self).domain_scores@ == old(self).domain_scores@,
            final (self).pagerank_scores@ == old(self).pagerank_scores@,
    {
        let uc = chars_of(seed.url.as_str());
        let mut present = false;
        let mut i: usize = 0;
        while i < self.seeds.len()
            invariant
                uc@ == seed.url@,
                i <= self.seeds@.len(),
                present == exists|j: int| 0 <= j < i && #[trigger] self.seeds@[j].url@ == uc@,
            decreases self.seeds@.len() - i,
        {
            let su = chars_of(self.seeds[i].url.as_str());
            if eq_chars(&su, &uc) {
                present = true;
            }
            i = i + 1;
        }
        if !present {
            let ghost seeds0 = self.seeds@;
            self.seeds.push(seed);
            proof {
                assert forall|i2: int, j2: int|
                    0 <= i2 < j2 < self.seeds@.len() implies self.seeds@[i2].url@
                    != self.seeds@[j2].url@ by {
                    if j2 < seeds0.len() {
                        assert(seeds0[i2].url@ != seeds0[j2].url@);
                    } else {
                        assert(!(exists|j: int|
                            0 <= j < seeds0.len() && #[trigger] seeds0[j].url@ == uc@));
                        assert(seeds0[i2].url@ != uc@);
                    }
                }
            }
        }
    }
}

} // verus!
