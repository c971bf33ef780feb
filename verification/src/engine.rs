//! The crawl engine: the per-page pipeline that turns a fetched response
//! into a page record and fresh frontier entries, and the session
//! bookkeeping around it.  Fetching itself happens outside; the engine is
//! handed each outcome.

use vstd::prelude::*;
use vstd::string::StringSliceAdditionalSpecFns;

use crate::catalog::{page_recorded, session_exists, Catalog};
use crate::extract::{
    calculate_content_hash, charset_of_header_spec, count_internal_links, count_words,
    detect_charset_from_headers, detect_language, extract_canonical_url, extract_h1_tags,
    extract_h2_tags, extract_links, extract_meta_description, extract_meta_keywords,
    extract_robots_meta, extract_text_content, extract_title, hex_lower_spec, html_body_text_of,
    html_canonical_of, html_headings_of, html_image_count, html_image_count_of,
    html_meta_content_of, html_title_of, internal_count_rec, internal_links_count_spec,
    keywords_spec, language_spec, page_links_spec, sha256_of, trimmed_nonempty,
};
use crate::frontier::Frontier;
use crate::models::{CrawlConfig, CrawlError, CrawlResult, CrawledPage, BacklinkAnalysis, CrawlReport};
use crate::robots::{robots_disallows, RobotsCache};
use crate::text::{collapse_ws_spec, trim_spec, word_count_spec};
use crate::urls::{calculate_url_priority, parse_url, url_host_of, url_parses, url_path_of, url_priority_spec};

verus! {

/// What came back from fetching one URL.
pub enum FetchOutcome {
    /// A success response with its body.
    Success {
        /// The URL the response finally came from, redirects followed.
        final_url: String,
        /// The HTTP status.
        status: u16,
        /// The response body.
        body: String,
        /// The `content-type` response header, empty where absent.
        content_type: String,
        /// How long the fetch took, in milliseconds.
        response_time_ms: u64,
    },
    /// A response with a non-success status.
    HttpStatus(u16),
    /// Connecting failed.
    Network(String),
    /// The request timed out.
    Timeout(String),
}

/// The internal-link count never exceeds the number of links counted.
proof fn lemma_internal_count_le(links: Seq<Seq<char>>, base: Seq<char>, n: int)
    requires
        0 <= n <= links.len(),
    ensures
        internal_count_rec(links, base, n) <= n,
    decreases n,
{
    if n > 0 {
        lemma_internal_count_le(links, base, n - 1);
    }
}

/// Turns one success response into a full page record and the page's
/// crawl-eligible links.  Every field is pinned to its extraction: the
/// title trimmed, the body text collapsed, the hash the hex SHA-256 of the
/// body, the links resolved against the final URL and classified by host.
pub fn build_page_record(
    requested_url: &str,
    final_url: &str,
    status: u16,
    body: &str,
    content_type: &str,
    response_time_ms: u64,
    now: i64,
) -> (r: (CrawledPage, Vec<String>))
    ensures
        r.0.url@ == final_url@,
        r.0.original_url@ == requested_url@,
        r.0.redirect_chain@.len() == 0,
        r.0.title@ == trim_spec(html_title_of(body@)),
        r.0.meta_description@ == trim_spec(html_meta_content_of(body@, "description"@)),
        r.0.content_text@ == collapse_ws_spec(html_body_text_of(body@)),
        r.0.content_html@ == body@,
        r.0.content_hash@ == hex_lower_spec(sha256_of(body.spec_bytes())),
        r.0.word_count == word_count_spec(collapse_ws_spec(html_body_text_of(body@))),
        r.0.page_size == body.spec_bytes().len() as usize,
        r.0.http_status_code == status,
        r.0.response_time_ms == response_time_ms,
        r.0.language@ == language_spec(body@),
        r.0.charset@ == charset_of_header_spec(content_type@),
        r.0.h1_tags@.map_values(|s: String| s@) == trimmed_nonempty(
            html_headings_of(body@, "h1"@),
        ),
        r.0.h2_tags@.map_values(|s: String| s@) == trimmed_nonempty(
            html_headings_of(body@, "h2"@),
        ),
        r.0.meta_keywords@.map_values(|s: String| s@) == keywords_spec(body@),
        r.0.canonical_url@ == html_canonical_of(body@),
        r.0.robots_meta@ == html_meta_content_of(body@, "robots"@),
        r.1@.map_values(|s: String| s@) == page_links_spec(body@, final_url@),
        r.0.internal_links_count == internal_links_count_spec(
            page_links_spec(body@, final_url@),
            final_url@,
        ),
        r.0.internal_links_count + r.0.external_links_count == r.1@.len(),
        r.0.images_count as nat == html_image_count_of(body@),
        r.0.crawl_time == now,
{
    let links = extract_links(body, final_url);
    let internal = count_internal_links(&links, final_url);
    proof {
        let ls = links@.map_values(|s: String| s@);
        if url_parses(final_url@) {
            lemma_internal_count_le(ls, final_url@, ls.len() as int);
        }
        assert(internal <= links@.len());
    }
    let external = links.len() - internal;
    let mut url = String::new();
    url.append(final_url);
    let mut original_url = String::new();
    original_url.append(requested_url);
    let mut content_html = String::new();
    content_html.append(body);
    let content_text = extract_text_content(body);
    let word_count = count_words(content_text.as_str());
    let page = CrawledPage {
        url,
        original_url,
        redirect_chain: Vec::new(),
        title: extract_title(body),
        meta_description: extract_meta_description(body),
        content_text,
        content_html,
        content_hash: calculate_content_hash(body),
        word_count,
        page_size: body.len(),
        http_status_code: status,
        response_time_ms,
        language: detect_language(body),
        charset: detect_charset_from_headers(content_type),
        h1_tags: extract_h1_tags(body),
        h2_tags: extract_h2_tags(body),
        meta_keywords: extract_meta_keywords(body),
        canonical_url: extract_canonical_url(body),
        robots_meta: extract_robots_meta(body),
        internal_links_count: internal,
        external_links_count: external,
        images_count: html_image_count(body),
        crawl_time: now,
    };
    (page, links)
}

/// The frontier's pending entries as plain values: URL, priority, depth.
pub open spec fn frontier_entries_model(f: Frontier) -> Seq<(Seq<char>, i32, usize)> {
    f.entries@.map_values(|e: crate::frontier::FrontierEntry| (e.url@, e.priority, e.depth))
}

/// The frontier after the seeds `seeds[i..]` are offered at depth 0 with
/// priority 10: each seed not yet visited joins the queue and the visited
/// set, provided any page budget exists at all.
pub open spec fn seeded_frontier_rec(
    seeds: Seq<Seq<char>>,
    i: int,
    entries: Seq<(Seq<char>, i32, usize)>,
    visited: Seq<Seq<char>>,
    max_pages: int,
) -> (Seq<(Seq<char>, i32, usize)>, Seq<Seq<char>>)
    recommends
        0 <= i <= seeds.len(),
    decreases seeds.len() - i,
{
    if i < 0 || i >= seeds.len() {
        (entries, visited)
    } else if !visited.contains(seeds[i]) && max_pages > 0 {
        seeded_frontier_rec(
            seeds,
            i + 1,
            entries.push((seeds[i], 10i32, 0usize)),
            visited.push(seeds[i]),
            max_pages,
        )
    } else {
        seeded_frontier_rec(seeds, i + 1, entries, visited, max_pages)
    }
}

/// The frontier after the links `links[i..]` of the page `base` are
/// offered at depth `depth1`: exactly the links sharing `base`'s host are
/// offered, each with its computed priority, and one joins the queue and
/// the visited set exactly when it is new, the page budget is not spent,
/// and `depth1` is within the depth limit.
pub open spec fn offer_links_rec(
    links: Seq<Seq<char>>,
    base: Seq<char>,
    depth1: usize,
    entries: Seq<(Seq<char>, i32, usize)>,
    visited: Seq<Seq<char>>,
    popped: int,
    max_depth: int,
    max_pages: int,
    i: int,
) -> (Seq<(Seq<char>, i32, usize)>, Seq<Seq<char>>)
    recommends
        0 <= i <= links.len(),
    decreases links.len() - i,
{
    if i < 0 || i >= links.len() {
        (entries, visited)
    } else if url_parses(links[i]) && url_parses(base) && url_host_of(links[i]) == url_host_of(
        base,
    ) {
        if !visited.contains(links[i]) && popped < max_pages && depth1 <= max_depth {
            offer_links_rec(
                links,
                base,
                depth1,
                entries.push((links[i], url_priority_spec(links[i], base) as i32, depth1)),
                visited.push(links[i]),
                popped,
                max_depth,
                max_pages,
                i + 1,
            )
        } else {
            offer_links_rec(links, base, depth1, entries, visited, popped, max_depth, max_pages, i + 1)
        }
    } else {
        offer_links_rec(links, base, depth1, entries, visited, popped, max_depth, max_pages, i + 1)
    }
}

/// One crawl invocation: its frontier, its session, and its counts.
pub struct CrawlEngine {
    /// The prioritized queue and visited set.
    pub frontier: Frontier,
    /// The id of the session the crawl stores under.
    pub session_id: String,
    /// The invocation's configuration.
    pub config: CrawlConfig,
    /// How many pages were stored.
    pub pages_crawled: usize,
    /// How many per-URL errors were recorded.
    pub errors: usize,
}

impl CrawlEngine {
    /// Every stored page and recorded error answers one entry the frontier
    /// handed out.
    pub open spec fn well_budgeted(&self) -> bool {
        self.pages_crawled + self.errors <= self.frontier.popped
    }

    /// Opens a session over `seeds` and seeds the frontier at depth 0 with
    /// priority 10: the queue afterwards holds exactly the distinct seeds
    /// in order, when any page budget exists at all.
    pub fn new(
        catalog: &mut Catalog,
        seeds: Vec<String>,
        config: CrawlConfig,
        config_json: String,
        now: i64,
    ) -> (r: CrawlEngine)
        requires
            old(catalog).well_formed(),
        ensures
            final (catalog).well_formed(),
            final (catalog).sessions@.len() == old(catalog).sessions@.len() + 1,
            final (catalog).sessions@.last().id@ == r.session_id@,
            final (catalog).sessions@.last().status@ == "running"@,
            final (catalog).pages@ == old(catalog).pages@,
            r.frontier.well_formed(),
            r.frontier.max_depth == config.max_depth,
            r.frontier.max_pages == config.max_pages,
            r.frontier.popped == 0,
            r.pages_crawled == 0,
            r.errors == 0,
            r.config == config,
            r.well_budgeted(),
            (frontier_entries_model(r.frontier), r.frontier.spec_visited())
                == seeded_frontier_rec(
                seeds@.map_values(|u: String| u@),
                0,
                Seq::empty(),
                Seq::empty(),
                config.max_pages as int,
            ),
            config.max_pages > 0 ==> forall|i: int|
                0 <= i < seeds@.len() ==> r.frontier.spec_visited().contains(
                    #[trigger] seeds@[i]@,
                ),
    {
        let seeds_for_session = crate::catalog::clone_string_vec(&seeds);
        let session_id = catalog.create_crawl_session(seeds_for_session, config_json, now);
        let mut frontier = Frontier::new(config.max_depth, config.max_pages);
        let ghost sv = seeds@.map_values(|u: String| u@);
        let mut i: usize = 0;
        proof {
            assert(frontier_entries_model(frontier) =~= Seq::<(Seq<char>, i32, usize)>::empty());
            assert(frontier.spec_visited() =~= Seq::<Seq<char>>::empty());
        }
        while i < seeds.len()
            invariant
                sv == seeds@.map_values(|u: String| u@),
                frontier.well_formed(),
                frontier.max_depth == config.max_depth,
                frontier.max_pages == config.max_pages,
                frontier.popped == 0,
                i <= seeds@.len(),
                seeded_frontier_rec(sv, 0, Seq::empty(), Seq::empty(), config.max_pages as int)
                    == seeded_frontier_rec(
                    sv,
                    i as int,
                    frontier_entries_model(frontier),
                    frontier.spec_visited(),
                    config.max_pages as int,
                ),
                config.max_pages > 0 ==> forall|j: int|
                    0 <= j < i ==> frontier.spec_visited().contains(#[trigger] seeds@[j]@),
            decreases seeds@.len() - i,
        {
            let ghost ent0 = frontier_entries_model(frontier);
            let ghost vis0 = frontier.spec_visited();
            let url = seeds[i].clone();
            proof {
                assert(url@ == seeds@[i as int]@);
                assert(sv[i as int] == seeds@[i as int]@);
            }
            frontier.push(url, 0, 10);
            proof {
                if !vis0.contains(sv[i as int]) && config.max_pages > 0 {
                    assert(frontier_entries_model(frontier) =~= ent0.push(
                        (sv[i as int], 10i32, 0usize),
                    ));
                }
            }
            proof {
                if frontier.max_pages > 0 {
                    if vis0.contains(seeds@[i as int]@) {
                        assert(frontier.spec_visited() == vis0 || frontier.spec_visited()
                            == vis0.push(seeds@[i as int]@));
                    } else {
                        assert(frontier.spec_visited() == vis0.push(seeds@[i as int]@));
                        assert(frontier.spec_visited().last() == seeds@[i as int]@);
                    }
                    assert forall|j: int|
                        0 <= j < i + 1 implies frontier.spec_visited().contains(
                        #[trigger] seeds@[j]@,
                    ) by {
                        if j < i {
                            assert(vis0.contains(seeds@[j]@));
                            let w = choose|w: int| 0 <= w < vis0.len() && vis0[w] == seeds@[j]@;
                            assert(frontier.spec_visited()[w] == seeds@[j]@);
                        } else {
                            if vis0.contains(seeds@[i as int]@) {
                                let w = choose|w: int|
                                    0 <= w < vis0.len() && vis0[w] == seeds@[i as int]@;
                                assert(frontier.spec_visited()[w] == seeds@[i as int]@);
                            }
                        }
                    }
                }
            }
            i = i + 1;
        }
        CrawlEngine { frontier, session_id, config, pages_crawled: 0, errors: 0 }
    }

    /// Whether robots rules known for `url`'s origin allow fetching it:
    /// `None` where `url` does not parse or its robots file is not cached
    /// yet, the cached rules' answer otherwise.
    pub fn robots_allowed(&self, cache: &RobotsCache, url: &str) -> (r: Option<bool>)
        requires
            cache.well_formed(),
        ensures
            r is None <==> !url_parses(url@) || !cache.spec_contains(url_origin_key(url@)),
            r is Some ==> url_parses(url@),
            r matches Some(allowed) ==> exists|i: int|
                0 <= i < cache.keys@.len() && cache.keys@[i]@ == url_origin_key(url@) && allowed
                    == !robots_disallows(
                    cache.entries@[i].rules_model(),
                    self.config.user_agent@,
                    url_path_of(url@),
                ),
    {
        let key = match crate::urls::robots_url_for(url) {
            None => {
                return None;
            },
            Some(k) => k,
        };
        let p = match parse_url(url) {
            None => {
                return None;
            },
            Some(p) => p,
        };
        match cache.get(key.as_str()) {
            None => None,
            Some(robots) => {
                let allowed = robots.can_crawl(self.config.user_agent.as_str(), p.path.as_str());
                proof {
                    let i = choose|i: int|
                        0 <= i < cache.keys@.len() && cache.keys@[i]@ == key@ && robots
                            == &cache.entries@[i];
                }
                Some(allowed)
            },
        }
    }

    /// Stores the page built from a success response, counts it, and
    /// offers the page's same-host links to the frontier at the next
    /// depth; links to other sites are counted but never traversed.
    pub fn record_success(
        &mut self,
        catalog: &mut Catalog,
        requested_url: &str,
        depth: usize,
        final_url: &str,
        status: u16,
        body: &str,
        content_type: &str,
        response_time_ms: u64,
        now: i64,
    ) -> (r: Result<(), CrawlError>)
        requires
            old(catalog).well_formed(),
            old(self).frontier.well_formed(),
            old(self).pages_crawled + old(self).errors < old(self).frontier.popped,
        ensures
            final (catalog).well_formed(),
            final (self).frontier.well_formed(),
            final (self).well_budgeted(),
            final (self).session_id == old(self).session_id,
            final (self).config == old(self).config,
            final (self).frontier.max_depth == old(self).frontier.max_depth,
            final (self).frontier.max_pages == old(self).frontier.max_pages,
            final (self).frontier.popped == old(self).frontier.popped,
            r is Ok && depth < old(self).config.max_depth ==> (
            frontier_entries_model(final (self).frontier), final (self).frontier.spec_visited())
                == offer_links_rec(
                page_links_spec(body@, final_url@),
                final_url@,
                (depth + 1) as usize,
                frontier_entries_model(old(self).frontier),
                old(self).frontier.spec_visited(),
                old(self).frontier.popped as int,
                old(self).frontier.max_depth as int,
                old(self).frontier.max_pages as int,
                0,
            ),
            r is Err || depth >= old(self).config.max_depth ==> final (self).frontier == old(
                self,
            ).frontier,
            r is Ok <==> (session_exists(old(catalog).sessions@, old(self).session_id@)
                && !page_recorded(old(catalog).pages@, old(self).session_id@, final_url@)),
            r is Ok ==> {
                let stored = final (catalog).pages@.last().page;
                &&& final (catalog).pages@.len() == old(catalog).pages@.len() + 1
                &&& final (catalog).pages@.last().session_id@ == old(self).session_id@
                &&& stored.url@ == final_url@
                &&& stored.original_url@ == requested_url@
                &&& stored.title@ == trim_spec(html_title_of(body@))
                &&& stored.content_text@ == collapse_ws_spec(html_body_text_of(body@))
                &&& stored.content_hash@ == hex_lower_spec(sha256_of(body.spec_bytes()))
                &&& stored.word_count == word_count_spec(collapse_ws_spec(html_body_text_of(body@)))
                &&& stored.page_size == body.spec_bytes().len() as usize
                &&& stored.language@ == language_spec(body@)
                &&& stored.charset@ == charset_of_header_spec(content_type@)
                &&& stored.internal_links_count == internal_links_count_spec(
                    page_links_spec(body@, final_url@),
                    final_url@,
                )
                &&& stored.internal_links_count + stored.external_links_count == page_links_spec(
                    body@,
                    final_url@,
                ).len()
                &&& stored.http_status_code == status
                &&& stored.response_time_ms == response_time_ms
                &&& stored.crawl_time == now
                &&& final (self).pages_crawled == old(self).pages_crawled + 1
                &&& final (self).errors == old(self).errors
            },
            r is Err ==> final (catalog).pages@ == old(catalog).pages@ && final (self).errors
                == old(self).errors + 1 && final (self).pages_crawled == old(self).pages_crawled,
            final (catalog).sessions@ == old(catalog).sessions@,
            final (catalog).backlinks@ == old(catalog).backlinks@,
            final (catalog).seeds@ == old(catalog).seeds@,
    {
        let (page, links) = build_page_record(
            requested_url,
            final_url,
            status,
            body,
            content_type,
            response_time_ms,
            now,
        );
        let stored = catalog.store_crawled_page(page, self.session_id.as_str());
        match stored {
            Ok(()) => {
                self.pages_crawled = self.pages_crawled + 1;
                if depth < self.config.max_depth {
                    let ghost ls = links@.map_values(|s: String| s@);
                    let ghost ent0 = frontier_entries_model(old(self).frontier);
                    let ghost vis0 = old(self).frontier.spec_visited();
                    let ghost popped0 = old(self).frontier.popped as int;
                    let ghost md = old(self).frontier.max_depth as int;
                    let ghost mp = old(self).frontier.max_pages as int;
                    let depth1 = depth + 1;
                    let mut i: usize = 0;
                    while i < links.len()
                        invariant
                            ls == links@.map_values(|s: String| s@),
                            ls == page_links_spec(body@, final_url@),
                            self.frontier.well_formed(),
                            self.session_id == old(self).session_id,
                            self.config == old(self).config,
                            self.frontier.max_depth == old(self).frontier.max_depth,
                            self.frontier.max_pages == old(self).frontier.max_pages,
                            self.frontier.popped == old(self).frontier.popped,
                            md == self.frontier.max_depth as int,
                            mp == self.frontier.max_pages as int,
                            popped0 == self.frontier.popped as int,
                            self.pages_crawled == old(self).pages_crawled + 1,
                            self.pages_crawled + self.errors <= self.frontier.popped,
                            self.errors == old(self).errors,
                            i <= links@.len(),
                            depth < self.config.max_depth,
                            depth1 == depth + 1,
                            offer_links_rec(ls, final_url@, depth1, ent0, vis0, popped0, md, mp, 0)
                                == offer_links_rec(
                                ls,
                                final_url@,
                                depth1,
                                frontier_entries_model(self.frontier),
                                self.frontier.spec_visited(),
                                popped0,
                                md,
                                mp,
                                i as int,
                            ),
                        decreases links@.len() - i,
                    {
                        let ghost ent_i = frontier_entries_model(self.frontier);
                        let ghost vis_i = self.frontier.spec_visited();
                        let link = links[i].clone();
                        proof {
                            assert(link@ == ls[i as int]);
                        }
                        if crate::urls::same_host(link.as_str(), final_url) {
                            let priority = calculate_url_priority(link.as_str(), final_url);
                            self.frontier.push(link, depth1, priority);
                            proof {
                                if !vis_i.contains(ls[i as int]) && popped0 < mp && depth1 as int
                                    <= md {
                                    assert(frontier_entries_model(self.frontier) =~= ent_i.push(
                                        (
                                            ls[i as int],
                                            url_priority_spec(ls[i as int], final_url@) as i32,
                                            depth1,
                                        ),
                                    ));
                                }
                            }
                        }
                        i = i + 1;
                    }
                }
                Ok(())
            },
            Err(e) => {
                self.errors = self.errors + 1;
                Err(e)
            },
        }
    }

    /// Records one fetch failure against the session.
    pub fn record_failure(
        &mut self,
        catalog: &mut Catalog,
        url: &str,
        error_type: &str,
        error_msg: &str,
        status_code: Option<u16>,
        now: i64,
    )
        requires
            old(catalog).well_formed(),
            old(self).pages_crawled + old(self).errors < old(self).frontier.popped,
        ensures
            final (catalog).well_formed(),
            final (self).well_budgeted(),
            final (catalog).errors@.len() == old(catalog).errors@.len() + 1,
            final (catalog).errors@.last().session_id@ == old(self).session_id@,
            final (catalog).errors@.last().url@ == url@,
            final (catalog).errors@.last().error_type@ == error_type@,
            final (catalog).errors@.last().error_msg@ == error_msg@,
            final (catalog).errors@.last().status_code == status_code,
            final (catalog).errors@.last().timestamp == now,
            final (self).errors == old(self).errors + 1,
            final (self).pages_crawled == old(self).pages_crawled,
            final (self).frontier == old(self).frontier,
            final (self).session_id == old(self).session_id,
            final (catalog).sessions@ == old(catalog).sessions@,
            final (catalog).pages@ == old(catalog).pages@,
    {
        catalog.log_crawl_error(
            self.session_id.as_str(),
            url,
            error_type,
            error_msg,
            status_code,
            now,
        );
        self.errors = self.errors + 1;
    }

    /// Closes the session as completed and reports the counts.
    pub fn finish(&self, catalog: &mut Catalog, now: i64, duration_ms: u64) -> (r: CrawlResult)
        requires
            old(catalog).well_formed(),
        ensures
            final (catalog).well_formed(),
            r.session_id@ == self.session_id@,
            r.pages_crawled == self.pages_crawled,
            r.errors == self.errors,
            r.duration_ms == duration_ms,
            final (catalog).sessions@.len() == old(catalog).sessions@.len(),
            forall|j: int|
                0 <= j < old(catalog).sessions@.len() && old(catalog).sessions@[j].id@
                    == self.session_id@ ==> final (catalog).sessions@[j].status@ == "completed"@
                    && final (catalog).sessions@[j].end_time == Some(now),
            final (catalog).pages@ == old(catalog).pages@,
            final (catalog).errors@ == old(catalog).errors@,
    {
        catalog.finish_crawl_session(self.session_id.as_str(), "completed", now);
        CrawlResult {
            session_id: self.session_id.clone(),
            pages_crawled: self.pages_crawled,
            errors: self.errors,
            duration_ms,
        }
    }
}

/// The key robots rules are cached under for `url`: its origin with the
/// robots.txt path appended.
pub open spec fn url_origin_key(url: Seq<char>) -> Seq<char> {
    crate::urls::url_origin_of(url) + "/robots.txt"@
}

/// The sum of the backlink totals of the first `n` analyses.
pub open spec fn sum_backlinks_rec(rs: Seq<(String, BacklinkAnalysis)>, n: int) -> int
    recommends
        n <= rs.len(),
    decreases n,
{
    if n <= 0 {
        0
    } else {
        sum_backlinks_rec(rs, n - 1) + rs[n - 1].1.total_backlinks
    }
}

/// The sum of the unique-domain counts of the first `n` analyses.
pub open spec fn sum_domains_rec(rs: Seq<(String, BacklinkAnalysis)>, n: int) -> int
    recommends
        n <= rs.len(),
    decreases n,
{
    if n <= 0 {
        0
    } else {
        sum_domains_rec(rs, n - 1) + rs[n - 1].1.unique_domains
    }
}

/// The sum of the spam counts of the first `n` analyses.
pub open spec fn sum_spam_rec(rs: Seq<(String, BacklinkAnalysis)>, n: int) -> int
    recommends
        n <= rs.len(),
    decreases n,
{
    if n <= 0 {
        0
    } else {
        sum_spam_rec(rs, n - 1) + rs[n - 1].1.spam_backlinks
    }
}

/// The sum of the domain authorities of the first `n` analyses.
pub open spec fn sum_authority_rec(rs: Seq<(String, BacklinkAnalysis)>, n: int) -> int
    recommends
        n <= rs.len(),
    decreases n,
{
    if n <= 0 {
        0
    } else {
        sum_authority_rec(rs, n - 1) + rs[n - 1].1.domain_authority
    }
}

/// The report closing an integrated run: the counts summed over the
/// analyses, the domain authorities averaged.
pub fn generate_crawl_report(
    crawl_result: &CrawlResult,
    backlink_results: &Vec<(String, BacklinkAnalysis)>,
) -> (r: CrawlReport)
    requires
        backlink_results@.len() < 0x100000000000000,
        sum_backlinks_rec(backlink_results@, backlink_results@.len() as int) <= usize::MAX,
        sum_domains_rec(backlink_results@, backlink_results@.len() as int) <= usize::MAX,
        sum_spam_rec(backlink_results@, backlink_results@.len() as int) <= usize::MAX,
        forall|i: int|
            0 <= i < backlink_results@.len() ==> #[trigger] backlink_results@[i].1.domain_authority
                <= 100,
    ensures
        r.total_pages_crawled == crawl_result.pages_crawled,
        r.total_backlinks_found == sum_backlinks_rec(
            backlink_results@,
            backlink_results@.len() as int,
        ),
        r.total_unique_domains == sum_domains_rec(
            backlink_results@,
            backlink_results@.len() as int,
        ),
        r.total_spam_backlinks == sum_spam_rec(backlink_results@, backlink_results@.len() as int),
        r.average_domain_authority == if backlink_results@.len() > 0 {
            sum_authority_rec(backlink_results@, backlink_results@.len() as int) / (
            backlink_results@.len() as int)
        } else {
            0
        },
        r.crawl_errors == crawl_result.errors,
        r.backlink_analyses_completed == backlink_results@.len(),
{
    let ghost rs = backlink_results@;
    let mut total_backlinks: usize = 0;
    let mut total_domains: usize = 0;
    let mut total_spam: usize = 0;
    let mut authority_sum: u64 = 0;
    let mut i: usize = 0;
    proof {
        lemma_sums_monotonic(rs, 0, rs.len() as int);
    }
    while i < backlink_results.len()
        invariant
            rs == backlink_results@,
            i <= rs.len(),
            total_backlinks == sum_backlinks_rec(rs, i as int),
            total_domains == sum_domains_rec(rs, i as int),
            total_spam == sum_spam_rec(rs, i as int),
            authority_sum == sum_authority_rec(rs, i as int),
            sum_backlinks_rec(rs, rs.len() as int) <= usize::MAX,
            sum_domains_rec(rs, rs.len() as int) <= usize::MAX,
            sum_spam_rec(rs, rs.len() as int) <= usize::MAX,
            forall|j: int| 0 <= j < rs.len() ==> #[trigger] rs[j].1.domain_authority <= 100,
            rs.len() < 0x100000000000000,
            authority_sum <= 100 * i,
        decreases rs.len() - i,
    {
        proof {
            lemma_sums_monotonic(rs, i + 1, rs.len() as int);
        }
        let a = &backlink_results[i].1;
        total_backlinks = total_backlinks + a.total_backlinks;
        total_domains = total_domains + a.unique_domains;
        total_spam = total_spam + a.spam_backlinks;
        authority_sum = authority_sum + a.domain_authority;
        i = i + 1;
    }
    let average: u64 = if backlink_results.len() > 0 {
        authority_sum / (backlink_results.len() as u64)
    } else {
        0
    };
    CrawlReport {
        total_pages_crawled: crawl_result.pages_crawled,
        total_backlinks_found: total_backlinks,
        total_unique_domains: total_domains,
        total_spam_backlinks: total_spam,
        average_domain_authority: average,
        crawl_errors: crawl_result.errors,
        backlink_analyses_completed: backlink_results.len(),
    }
}

/// Partial sums never exceed the full sums.
proof fn lemma_sums_monotonic(rs: Seq<(String, BacklinkAnalysis)>, k: int, n: int)
    requires
        0 <= k <= n <= rs.len(),
    ensures
        sum_backlinks_rec(rs, k) <= sum_backlinks_rec(rs, n),
        sum_domains_rec(rs, k) <= sum_domains_rec(rs, n),
        sum_spam_rec(rs, k) <= sum_spam_rec(rs, n),
    decreases n - k,
{
    if k < n {
        lemma_sums_monotonic(rs, k + 1, n);
    }
}

/// The crawl never stores more pages than its page budget: where every
/// recorded outcome answers one entry the frontier handed out, the
/// stored-page count is bounded by `max_pages`.
pub proof fn lemma_pages_within_budget(e: CrawlEngine)
    requires
        e.well_budgeted(),
        e.frontier.well_formed(),
    ensures
        e.pages_crawled <= e.frontier.max_pages,
{
}

} // verus!
