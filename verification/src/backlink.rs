//! Backlink discovery: the bounded breadth-first session that walks pages,
//! records every hyperlink landing on the target's host from another site,
//! and the scoring-and-storing step that closes a discovery run.  Fetching
//! happens outside; each fetched page is handed in.

use vstd::prelude::*;

use crate::catalog::{same_backlink_key, Catalog};
use crate::extract::{extract_title, html_anchors, html_anchors_of, html_title_of};
use crate::models::{BacklinkAnalysis, BacklinkData, DomainScore, PageRankScore};
use crate::scoring::{
    analyze_collected_backlinks, domain_authority_spec, domain_table_for, pagerank_score_spec,
    pagerank_table_for, referring_domains, spam_backlinks_spec, target_domain_key,
};
use crate::text::{
    chars_of, contains_chars, contains_spec, eq_chars, starts_with, starts_with_spec,
    string_from_chars, take_at_most, take_chars, trim_chars, trim_spec, vec_contains_str,
};
use crate::urls::{extract_domain, parse_url, same_host, url_host_of, url_join_of, url_joins, url_parses};

verus! {

/// A true cross-site link: both ends parse and they name different hosts.
pub open spec fn cross_site(b: BacklinkData) -> bool {
    url_parses(b.source_url@) && url_parses(b.target_url@) && url_host_of(b.source_url@)
        != url_host_of(b.target_url@)
}

/// A collected backlink as plain values: what discovery decides about it.
pub ghost struct BacklinkModel {
    /// The page the link stands on.
    pub source: Seq<char>,
    /// The page it points to.
    pub target: Seq<char>,
    /// The anchor element's text.
    pub anchor: Seq<char>,
    /// The surrounding text, truncated and trimmed.
    pub context: Seq<char>,
    /// The source page's title.
    pub title: Seq<char>,
    /// Whether the link carries `rel="nofollow"`.
    pub nofollow: bool,
    /// When it was discovered.
    pub at: int,
}

/// The plain values of one stored backlink.
pub open spec fn backlink_model(b: BacklinkData) -> BacklinkModel {
    BacklinkModel {
        source: b.source_url@,
        target: b.target_url@,
        anchor: b.anchor_text@,
        context: b.context@,
        title: b.page_title@,
        nofollow: b.is_nofollow,
        at: b.discovered_at as int,
    }
}

/// The plain values of a whole collection.
pub open spec fn collected_models(v: Seq<BacklinkData>) -> Seq<BacklinkModel> {
    v.map_values(|b: BacklinkData| backlink_model(b))
}

/// Whether `ms` already holds a record with this (source, target, anchor)
/// key.
pub open spec fn has_model_key(
    ms: Seq<BacklinkModel>,
    source: Seq<char>,
    target: Seq<char>,
    anchor: Seq<char>,
) -> bool {
    exists|i: int|
        0 <= i < ms.len() && (#[trigger] ms[i]).source == source && ms[i].target == target
            && ms[i].anchor == anchor
}

/// The queue's entries as plain values.
pub open spec fn queue_model(q: Seq<(String, u32)>) -> Seq<(Seq<char>, u32)> {
    q.map_values(|e: (String, u32)| (e.0@, e.1))
}

/// One page walked by discovery: what `anchors[i..]` add to the collected
/// backlinks and the queue.  An anchor whose href resolves onto the
/// target's host from a different, parseable host contributes one backlink
/// — with its anchor text, its `nofollow` mark, and its parent text
/// truncated to 200 characters and trimmed — unless its key is already
/// collected; every other resolving anchor is queued one level deeper, up
/// to five per page.
pub open spec fn walk_anchors_rec(
    anchors: Seq<(Seq<char>, Seq<char>, Seq<char>, Seq<char>)>,
    page: Seq<char>,
    target: Seq<char>,
    title: Seq<char>,
    depth: u32,
    now: i64,
    i: int,
    collected: Seq<BacklinkModel>,
    queued: Seq<(Seq<char>, u32)>,
    pushed: int,
) -> (Seq<BacklinkModel>, Seq<(Seq<char>, u32)>)
    recommends
        0 <= i <= anchors.len(),
        depth < u32::MAX,
    decreases anchors.len() - i,
{
    if i < 0 || i >= anchors.len() {
        (collected, queued)
    } else if !url_joins(page, anchors[i].0) {
        walk_anchors_rec(anchors, page, target, title, depth, now, i + 1, collected, queued, pushed)
    } else {
        let link = url_join_of(page, anchors[i].0);
        if url_parses(link) && url_parses(target) && url_host_of(link) == url_host_of(target) {
            if url_parses(page) && url_host_of(link) != url_host_of(page) && !has_model_key(
                collected,
                page,
                link,
                anchors[i].1,
            ) {
                walk_anchors_rec(
                    anchors,
                    page,
                    target,
                    title,
                    depth,
                    now,
                    i + 1,
                    collected.push(
                        BacklinkModel {
                            source: page,
                            target: link,
                            anchor: anchors[i].1,
                            context: trim_spec(take_at_most(anchors[i].3, 200)),
                            title: title,
                            nofollow: contains_spec(anchors[i].2, "nofollow"@),
                            at: now as int,
                        },
                    ),
                    queued,
                    pushed,
                )
            } else {
                walk_anchors_rec(
                    anchors,
                    page,
                    target,
                    title,
                    depth,
                    now,
                    i + 1,
                    collected,
                    queued,
                    pushed,
                )
            }
        } else if pushed < 5 {
            walk_anchors_rec(
                anchors,
                page,
                target,
                title,
                depth,
                now,
                i + 1,
                collected,
                queued.push((link, (depth + 1) as u32)),
                pushed + 1,
            )
        } else {
            walk_anchors_rec(anchors, page, target, title, depth, now, i + 1, collected, queued, pushed)
        }
    }
}

/// The candidates that the anchors `anchors[i..]` of a search-result page
/// add: an href starting with `http`, parsing, on a host that is neither
/// the engine's nor the target's, with a key not yet collected, becomes
/// one backlink aimed at the target.
pub open spec fn search_candidates_rec(
    anchors: Seq<(Seq<char>, Seq<char>, Seq<char>, Seq<char>)>,
    target: Seq<char>,
    engine_host: Seq<char>,
    now: i64,
    i: int,
    collected: Seq<BacklinkModel>,
) -> Seq<BacklinkModel>
    recommends
        0 <= i <= anchors.len(),
    decreases anchors.len() - i,
{
    if i < 0 || i >= anchors.len() {
        collected
    } else {
        let href = anchors[i].0;
        let accepted = starts_with_spec(href, "http"@) && url_parses(href) && url_parses(target)
            && url_host_of(href) != engine_host && url_host_of(href) != url_host_of(target)
            && !has_model_key(collected, href, target, anchors[i].1);
        if accepted {
            search_candidates_rec(
                anchors,
                target,
                engine_host,
                now,
                i + 1,
                collected.push(
                    BacklinkModel {
                        source: href,
                        target: target,
                        anchor: anchors[i].1,
                        context: Seq::empty(),
                        title: Seq::empty(),
                        nofollow: false,
                        at: now as int,
                    },
                ),
            )
        } else {
            search_candidates_rec(anchors, target, engine_host, now, i + 1, collected)
        }
    }
}

/// One backlink-discovery run: its target, its frontier of pages to visit,
/// and what it has collected.
pub struct BacklinkSession {
    /// The URL whose backlinks are sought.
    pub target_url: String,
    /// Pages still to visit, each with its BFS depth.
    pub queue: Vec<(String, u32)>,
    /// Pages already visited.
    pub visited: Vec<String>,
    /// The distinct cross-site backlinks found so far.
    pub collected: Vec<BacklinkData>,
    /// The deepest BFS level visited.
    pub max_depth: u32,
}

/// The hard cap on pages visited in one discovery run.
pub open spec fn discovery_visit_cap() -> int {
    1000
}

impl BacklinkSession {
    /// The session's invariant: everything collected is a distinct true
    /// cross-site link landing on the target's host, and no page was
    /// visited twice.
    pub open spec fn well_formed(&self) -> bool {
        &&& forall|i: int|
            0 <= i < self.collected@.len() ==> cross_site(#[trigger] self.collected@[i])
        &&& forall|i: int|
            0 <= i < self.collected@.len() ==> url_host_of(
                #[trigger] self.collected@[i].target_url@,
            ) == url_host_of(self.target_url@) && url_parses(self.target_url@)
        &&& forall|i: int, j: int|
            0 <= i < j < self.collected@.len() ==> !same_backlink_key(
                self.collected@[i],
                self.collected@[j],
            )
        &&& forall|i: int, j: int|
            0 <= i < j < self.visited@.len() ==> self.visited@[i]@ != self.visited@[j]@
    }

    /// A fresh session aimed at `target_url`, its queue holding just the
    /// target at depth 0.
    pub fn new(target_url: String, max_depth: u32) -> (r: BacklinkSession)
        ensures
            r.well_formed(),
            r.target_url == target_url,
            r.max_depth == max_depth,
            r.queue@.len() == 1,
            r.queue@[0].0@ == target_url@,
            r.queue@[0].1 == 0,
            r.visited@.len() == 0,
            r.collected@.len() == 0,
    {
        let start = target_url.clone();
        let mut queue: Vec<(String, u32)> = Vec::new();
        queue.push((start, 0));
        BacklinkSession { target_url, queue, visited: Vec::new(), collected: Vec::new(), max_depth }
    }

    /// Hands out the next page to visit: entries already visited or too
    /// deep are discarded, and nothing comes out once the visit cap is
    /// reached.  A page handed out is marked visited.
    pub fn next_url(&mut self) -> (r: Option<(String, u32)>)
        requires
            old(self).well_formed(),
        ensures
            final (self).well_formed(),
            final (self).target_url == old(self).target_url,
            final (self).max_depth == old(self).max_depth,
            final (self).collected@ == old(self).collected@,
            final (self).queue@ == old(self).queue@.take(final (self).queue@.len() as int),
            r matches Some(e) ==> {
                let j = final (self).queue@.len() as int;
                &&& e.1 < old(self).max_depth
                &&& !old(self).visited@.map_values(|s: String| s@).contains(e.0@)
                &&& final (self).visited@.len() == old(self).visited@.len() + 1
                &&& final (self).visited@.last()@ == e.0@
                &&& forall|m: int|
                    0 <= m < old(self).visited@.len() ==> final (self).visited@[m] == old(
                        self,
                    ).visited@[m]
                &&& old(self).visited@.len() < discovery_visit_cap()
                &&& j < old(self).queue@.len()
                &&& old(self).queue@[j].0@ == e.0@
                &&& old(self).queue@[j].1 == e.1
                &&& forall|m: int|
                    j < m < old(self).queue@.len() ==> (#[trigger] old(self).queue@[m]).1 >= old(
                        self,
                    ).max_depth || old(self).visited@.map_values(|s: String| s@).contains(
                        old(self).queue@[m].0@,
                    )
            },
            r is None ==> {
                &&& final (self).visited@ == old(self).visited@
                &&& (old(self).visited@.len() >= discovery_visit_cap() || (final (
                self).queue@.len() == 0 && forall|m: int|
                    0 <= m < old(self).queue@.len() ==> (#[trigger] old(self).queue@[m]).1 >= old(
                        self,
                    ).max_depth || old(self).visited@.map_values(|s: String| s@).contains(
                        old(self).queue@[m].0@,
                    )))
            },
    {
        loop
            invariant
                self.well_formed(),
                self.target_url == old(self).target_url,
                self.max_depth == old(self).max_depth,
                self.collected@ == old(self).collected@,
                self.visited@ == old(self).visited@,
                self.queue@.len() <= old(self).queue@.len(),
                self.queue@ == old(self).queue@.take(self.queue@.len() as int),
                forall|m: int|
                    self.queue@.len() <= m < old(self).queue@.len() ==> (#[trigger] old(
                        self,
                    ).queue@[m]).1 >= old(self).max_depth || old(self).visited@.map_values(
                        |s: String| s@,
                    ).contains(old(self).queue@[m].0@),
            decreases self.queue@.len(),
        {
            if self.visited.len() >= 1000 {
                return None;
            }
            let ghost q0 = self.queue@;
            let popped = self.queue.pop();
            match popped {
                None => {
                    return None;
                },
                Some((url, depth)) => {
                    proof {
                        assert(q0.len() > 0);
                        assert((url, depth) == q0.last());
                        assert(q0 == old(self).queue@.take(q0.len() as int));
                        assert(self.queue@ == q0.drop_last());
                        assert(self.queue@ =~= old(self).queue@.take(q0.len() - 1));
                        assert(old(self).queue@[q0.len() - 1] == q0[q0.len() - 1]);
                    }
                    if depth >= self.max_depth {
                        continue ;
                    }
                    let uc = chars_of(url.as_str());
                    if vec_contains_str(&self.visited, &uc) {
                        continue ;
                    }
                    let ghost vis0 = self.visited@;
                    self.visited.push(url);
                    proof {
                        assert(self.visited@.last()@ == uc@);
                        assert forall|i: int, j: int|
                            0 <= i < j < self.visited@.len() implies self.visited@[i]@
                            != self.visited@[j]@ by {
                            if j == vis0.len() {
                                assert(self.visited@[i]@ == vis0[i]@);
                                assert(vis0.map_values(|s: String| s@)[i] == vis0[i]@);
                                assert(!vis0.map_values(|s: String| s@).contains(uc@));
                            }
                        }
                    }
                    let out = string_from_chars(&uc);
                    return Some((out, depth));
                },
            }
        }
    }

    /// Whether `collected` already holds a backlink with this key.
    fn has_key(&self, source: &Vec<char>, target: &Vec<char>, anchor: &Vec<char>) -> (r: bool)
        ensures
            r == exists|i: int|
                0 <= i < self.collected@.len() && (#[trigger] self.collected@[i]).source_url@
                    == source@ && self.collected@[i].target_url@ == target@
                    && self.collected@[i].anchor_text@ == anchor@,
    {
        let mut i: usize = 0;
        while i < self.collected.len()
            invariant
                i <= self.collected@.len(),
                forall|j: int|
                    0 <= j < i ==> !((#[trigger] self.collected@[j]).source_url@ == source@
                        && self.collected@[j].target_url@ == target@
                        && self.collected@[j].anchor_text@ == anchor@),
            decreases self.collected@.len() - i,
        {
            let cs = chars_of(self.collected[i].source_url.as_str());
            let ct = chars_of(self.collected[i].target_url.as_str());
            let ca = chars_of(self.collected[i].anchor_text.as_str());
            if eq_chars(&cs, source) && eq_chars(&ct, target) && eq_chars(&ca, anchor) {
                return true;
            }
            i = i + 1;
        }
        false
    }

    /// Offers a search-result link as a candidate backlink source: kept
    /// where it is an http(s)-looking URL on a host that is neither the
    /// search engine's nor the target's own, and its key is new.
    pub fn add_search_candidate(
        &mut self,
        href: &str,
        anchor_text: &str,
        engine_host: &str,
        now: i64,
    )
        requires
            old(self).well_formed(),
        ensures
            final (self).well_formed(),
            final (self).target_url == old(self).target_url,
            final (self).max_depth == old(self).max_depth,
            final (self).visited@ == old(self).visited@,
            final (self).queue@ == old(self).queue@,
            final (self).collected@.len() >= old(self).collected@.len(),
            forall|j: int|
                0 <= j < old(self).collected@.len() ==> final (self).collected@[j] == old(
                    self,
                ).collected@[j],
            ({
                let accepted = starts_with_spec(href@, "http"@) && url_parses(href@) && url_parses(
                    old(self).target_url@,
                ) && url_host_of(href@) != engine_host@ && url_host_of(href@) != url_host_of(
                    old(self).target_url@,
                ) && !has_model_key(
                    collected_models(old(self).collected@),
                    href@,
                    old(self).target_url@,
                    anchor_text@,
                );
                if accepted {
                    collected_models(final (self).collected@) == collected_models(
                        old(self).collected@,
                    ).push(
                        BacklinkModel {
                            source: href@,
                            target: old(self).target_url@,
                            anchor: anchor_text@,
                            context: Seq::empty(),
                            title: Seq::empty(),
                            nofollow: false,
                            at: now as int,
                        },
                    )
                } else {
                    final (self).collected@ == old(self).collected@
                }
            }),
    {
        let hc = chars_of(href);
        let http = chars_of("http");
        if !starts_with(&hc, &http) {
            return ;
        }
        match (extract_domain(href), extract_domain(self.target_url.as_str())) {
            (Some(h_host), Some(t_host)) => {
                let hh = chars_of(h_host.as_str());
                let th = chars_of(t_host.as_str());
                let eh = chars_of(engine_host);
                if eq_chars(&hh, &eh) || eq_chars(&hh, &th) {
                    return ;
                }
                let tc = chars_of(self.target_url.as_str());
                let ac = chars_of(anchor_text);
                let dup = self.has_key(&hc, &tc, &ac);
                proof {
                    let ms = collected_models(self.collected@);
                    if dup {
                        let i = choose|i: int|
                            0 <= i < self.collected@.len() && (
                            #[trigger] self.collected@[i]).source_url@ == hc@
                                && self.collected@[i].target_url@ == tc@
                                && self.collected@[i].anchor_text@ == ac@;
                        assert(ms[i].source == hc@ && ms[i].target == tc@ && ms[i].anchor == ac@);
                    } else if has_model_key(ms, hc@, tc@, ac@) {
                        let i = choose|i: int|
                            0 <= i < ms.len() && (#[trigger] ms[i]).source == hc@ && ms[i].target
                                == tc@ && ms[i].anchor == ac@;
                        assert(self.collected@[i].source_url@ == hc@);
                    }
                    assert(dup == has_model_key(ms, hc@, tc@, ac@));
                }
                if dup {
                    return ;
                }
                let b = BacklinkData {
                    source_url: string_from_chars(&hc),
                    target_url: string_from_chars(&tc),
                    anchor_text: string_from_chars(&ac),
                    context: String::new(),
                    page_title: String::new(),
                    domain_authority: 0,
                    is_nofollow: false,
                    discovered_at: now,
                };
                let ghost col0 = self.collected@;
                self.collected.push(b);
                proof {
                    assert(cross_site(self.collected@.last()));
                    assert forall|i: int, j: int|
                        0 <= i < j < self.collected@.len() implies !same_backlink_key(
                        self.collected@[i],
                        self.collected@[j],
                    ) by {
                        if j == col0.len() {
                            assert(!(col0[i].source_url@ == hc@ && col0[i].target_url@ == tc@
                                && col0[i].anchor_text@ == ac@));
                        }
                    }
                    assert(collected_models(self.collected@) =~= collected_models(col0).push(
                        backlink_model(self.collected@.last()),
                    ));
                }
            },
            _ => {},
        }
    }

    /// Feeds every anchor of a fetched search-result page to the
    /// candidate filter, in document order.
    pub fn add_search_results(&mut self, html: &str, engine_host: &str, now: i64)
        requires
            old(self).well_formed(),
        ensures
            final (self).well_formed(),
            final (self).target_url == old(self).target_url,
            final (self).max_depth == old(self).max_depth,
            final (self).visited@ == old(self).visited@,
            final (self).queue@ == old(self).queue@,
            forall|j: int|
                0 <= j < old(self).collected@.len() ==> final (self).collected@[j] == old(
                    self,
                ).collected@[j],
            collected_models(final (self).collected@) == search_candidates_rec(
                html_anchors_of(html@),
                old(self).target_url@,
                engine_host@,
                now,
                0,
                collected_models(old(self).collected@),
            ),
    {
        let ghost ga = html_anchors_of(html@);
        let ghost target0 = old(self).target_url@;
        let anchors = html_anchors(html);
        let mut i: usize = 0;
        while i < anchors.len()
            invariant
                self.well_formed(),
                self.target_url == old(self).target_url,
                self.max_depth == old(self).max_depth,
                self.visited@ == old(self).visited@,
                self.queue@ == old(self).queue@,
                ga == html_anchors_of(html@),
                target0 == old(self).target_url@,
                anchors@.map_values(|a: crate::extract::Anchor| a.view_tuple()) == ga,
                anchors@.len() == ga.len(),
                i <= ga.len(),
                self.collected@.len() >= old(self).collected@.len(),
                forall|j: int|
                    0 <= j < old(self).collected@.len() ==> self.collected@[j] == old(
                        self,
                    ).collected@[j],
                search_candidates_rec(ga, target0, engine_host@, now, 0, collected_models(
                    old(self).collected@,
                )) == search_candidates_rec(
                    ga,
                    target0,
                    engine_host@,
                    now,
                    i as int,
                    collected_models(self.collected@),
                ),
            decreases ga.len() - i,
        {
            proof {
                assert(anchors@[i as int].view_tuple() == ga[i as int]);
            }
            self.add_search_candidate(
                anchors[i].href.as_str(),
                anchors[i].text.as_str(),
                engine_host,
                now,
            );
            i = i + 1;
        }
    }

    /// Walks one fetched page: every anchor resolving onto the target's
    /// host from another site becomes a backlink, with its anchor text,
    /// its trimmed 200-character context, the page title and its nofollow
    /// mark; up to five other links are queued one level deeper.
    pub fn process_page(&mut self, page_url: &str, html: &str, depth: u32, now: i64)
        requires
            old(self).well_formed(),
            depth < u32::MAX,
        ensures
            final (self).well_formed(),
            final (self).target_url == old(self).target_url,
            final (self).max_depth == old(self).max_depth,
            final (self).visited@ == old(self).visited@,
            final (self).collected@.len() >= old(self).collected@.len(),
            forall|j: int|
                0 <= j < old(self).collected@.len() ==> final (self).collected@[j] == old(
                    self,
                ).collected@[j],
            forall|j: int|
                old(self).collected@.len() <= j < final (self).collected@.len() ==> {
                    let b = #[trigger] final (self).collected@[j];
                    b.source_url@ == page_url@ && url_host_of(b.target_url@) == url_host_of(
                        old(self).target_url@,
                    ) && cross_site(b) && b.page_title@ == trim_spec(html_title_of(html@))
                        && b.discovered_at == now
                },
            final (self).queue@.len() <= old(self).queue@.len() + 5,
            forall|j: int|
                0 <= j < old(self).queue@.len() ==> final (self).queue@[j] == old(self).queue@[j],
            forall|j: int|
                old(self).queue@.len() <= j < final (self).queue@.len() ==> (
                #[trigger] final (self).queue@[j]).1 == depth + 1,
            (collected_models(final (self).collected@), queue_model(final (self).queue@))
                == walk_anchors_rec(
                html_anchors_of(html@),
                page_url@,
                old(self).target_url@,
                trim_spec(html_title_of(html@)),
                depth,
                now,
                0,
                collected_models(old(self).collected@),
                queue_model(old(self).queue@),
                0,
            ),
    {
        let ghost ga = html_anchors_of(html@);
        let ghost target0 = old(self).target_url@;
        let ghost title0 = trim_spec(html_title_of(html@));
        let ghost cm0 = collected_models(old(self).collected@);
        let ghost qm0 = queue_model(old(self).queue@);
        let anchors = html_anchors(html);
        let page_title = extract_title(html);
        let nofollow = chars_of("nofollow");
        let pc = chars_of(page_url);
        let mut pushed: usize = 0;
        let mut i: usize = 0;
        while i < anchors.len()
            invariant
                self.well_formed(),
                self.target_url == old(self).target_url,
                self.max_depth == old(self).max_depth,
                self.visited@ == old(self).visited@,
                page_title@ == trim_spec(html_title_of(html@)),
                nofollow@ == "nofollow"@,
                pc@ == page_url@,
                depth < u32::MAX,
                i <= anchors@.len(),
                pushed <= 5,
                self.collected@.len() >= old(self).collected@.len(),
                forall|j: int|
                    0 <= j < old(self).collected@.len() ==> self.collected@[j] == old(
                        self,
                    ).collected@[j],
                forall|j: int|
                    old(self).collected@.len() <= j < self.collected@.len() ==> {
                        let b = #[trigger] self.collected@[j];
                        b.source_url@ == page_url@ && url_host_of(b.target_url@) == url_host_of(
                            old(self).target_url@,
                        ) && cross_site(b) && b.page_title@ == trim_spec(html_title_of(html@))
                            && b.discovered_at == now
                    },
                old(self).queue@.len() <= self.queue@.len() <= old(self).queue@.len() + pushed,
                forall|j: int|
                    0 <= j < old(self).queue@.len() ==> self.queue@[j] == old(self).queue@[j],
                forall|j: int|
                    old(self).queue@.len() <= j < self.queue@.len() ==> (
                    #[trigger] self.queue@[j]).1 == depth + 1,
                ga == html_anchors_of(html@),
                target0 == old(self).target_url@,
                title0 == trim_spec(html_title_of(html@)),
                anchors@.map_values(|a: crate::extract::Anchor| a.view_tuple()) == ga,
                anchors@.len() == ga.len(),
                walk_anchors_rec(ga, page_url@, target0, title0, depth, now, 0, cm0, qm0, 0)
                    == walk_anchors_rec(
                    ga,
                    page_url@,
                    target0,
                    title0,
                    depth,
                    now,
                    i as int,
                    collected_models(self.collected@),
                    queue_model(self.queue@),
                    pushed as int,
                ),
            decreases anchors@.len() - i,
        {
            proof {
                assert(anchors@[i as int].view_tuple() == ga[i as int]);
            }
            let href = &anchors[i].href;
            match crate::urls::resolve_url(page_url, href.as_str()) {
                None => {},
                Some(resolved) => {
                    proof {
                        assert(resolved@ == url_join_of(page_url@, ga[i as int].0));
                    }
                    if same_host(resolved.as_str(), self.target_url.as_str()) {
                        if !same_host(resolved.as_str(), page_url) && is_parseable(page_url) {
                            let rc = chars_of(resolved.as_str());
                            let ac = chars_of(anchors[i].text.as_str());
                            let dup = self.has_key(&pc, &rc, &ac);
                            proof {
                                let ms = collected_models(self.collected@);
                                if dup {
                                    let w = choose|w: int|
                                        0 <= w < self.collected@.len() && (
                                        #[trigger] self.collected@[w]).source_url@ == pc@
                                            && self.collected@[w].target_url@ == rc@
                                            && self.collected@[w].anchor_text@ == ac@;
                                    assert(ms[w].source == pc@ && ms[w].target == rc@ && ms[w].anchor
                                        == ac@);
                                } else if has_model_key(ms, pc@, rc@, ac@) {
                                    let w = choose|w: int|
                                        0 <= w < ms.len() && (#[trigger] ms[w]).source == pc@
                                            && ms[w].target == rc@ && ms[w].anchor == ac@;
                                    assert(self.collected@[w].source_url@ == pc@);
                                }
                                assert(dup == has_model_key(ms, pc@, rc@, ac@));
                            }
                            if !dup {
                                let parent = chars_of(anchors[i].parent_text.as_str());
                                let cut = take_chars(&parent, 200);
                                let trimmed = trim_chars(&cut);
                                let rel = chars_of(anchors[i].rel.as_str());
                                let is_nofollow = contains_chars(&rel, &nofollow);
                                let b = BacklinkData {
                                    source_url: string_from_chars(&pc),
                                    target_url: string_from_chars(&rc),
                                    anchor_text: string_from_chars(&ac),
                                    context: string_from_chars(&trimmed),
                                    page_title: page_title.clone(),
                                    domain_authority: 0,
                                    is_nofollow,
                                    discovered_at: now,
                                };
                                let ghost col0 = self.collected@;
                                self.collected.push(b);
                                proof {
                                    assert(cross_site(self.collected@.last()));
                                    assert forall|i2: int, j2: int|
                                        0 <= i2 < j2 < self.collected@.len() implies !same_backlink_key(
                                        self.collected@[i2],
                                        self.collected@[j2],
                                    ) by {
                                        if j2 == col0.len() {
                                            assert(!(col0[i2].source_url@ == pc@
                                                && col0[i2].target_url@ == rc@
                                                && col0[i2].anchor_text@ == ac@));
                                        }
                                    }
                                    assert(collected_models(self.collected@) =~= collected_models(
                                        col0,
                                    ).push(backlink_model(self.collected@.last())));
                                    assert(backlink_model(self.collected@.last())
                                        == BacklinkModel {
                                        source: page_url@,
                                        target: url_join_of(page_url@, ga[i as int].0),
                                        anchor: ga[i as int].1,
                                        context: trim_spec(take_at_most(ga[i as int].3, 200)),
                                        title: title0,
                                        nofollow: contains_spec(ga[i as int].2, "nofollow"@),
                                        at: now as int,
                                    });
                                }
                            }
                        }
                    } else if pushed < 5 {
                        let ghost qprev = self.queue@;
                        self.queue.push((resolved, depth + 1));
                        pushed = pushed + 1;
                        proof {
                            assert(queue_model(self.queue@) =~= queue_model(qprev).push(
                                (url_join_of(page_url@, ga[i as int].0), (depth + 1) as u32),
                            ));
                        }
                    }
                },
            }
            i = i + 1;
        }
    }
}

/// Whether `url` parses as an absolute URL.
fn is_parseable(url: &str) -> (r: bool)
    ensures
        r == url_parses(url@),
{
    match parse_url(url) {
        Some(_) => true,
        None => false,
    }
}

/// Every backlink a well-formed discovery session has collected crosses
/// sites: its source and target parse and name different hosts.
pub proof fn lemma_collected_backlinks_cross_site(s: BacklinkSession)
    requires
        s.well_formed(),
    ensures
        forall|i: int| 0 <= i < s.collected@.len() ==> cross_site(#[trigger] s.collected@[i]),
{
}

/// Scores a finished discovery run and stores everything: the backlinks
/// themselves, every domain's authority and every target's PageRank, and
/// reports the aggregate analysis.
pub fn analyze_and_store_backlinks(
    catalog: &mut Catalog,
    backlinks: &Vec<BacklinkData>,
    target_url: &str,
    now: i64,
) -> (r: BacklinkAnalysis)
    requires
        old(catalog).well_formed(),
        backlinks@.len() < 1000000000000,
    ensures
        final (catalog).well_formed(),
        r.total_backlinks == backlinks@.len(),
        r.unique_domains == referring_domains(backlinks@).len(),
        r.spam_backlinks == spam_backlinks_spec(backlinks@).len(),
        r.domain_authority == domain_authority_spec(backlinks@, target_domain_key(target_url@)),
        r.pagerank_score == pagerank_score_spec(backlinks@, target_url@),
        final (catalog).backlinks@ == crate::catalog::upsert_backlinks_rec(
            old(catalog).backlinks@,
            backlinks@,
            backlinks@.len() as int,
        ),
        exists|ds: Seq<DomainScore>|
            #[trigger] domain_table_for(ds, backlinks@, now) && final (catalog).domain_scores@
                == crate::catalog::upsert_domain_scores_rec(
                old(catalog).domain_scores@,
                ds,
                ds.len() as int,
            ),
        exists|ps: Seq<PageRankScore>|
            #[trigger] pagerank_table_for(ps, backlinks@, now) && final (
            catalog).pagerank_scores@ == crate::catalog::upsert_pagerank_scores_rec(
                old(catalog).pagerank_scores@,
                ps,
                ps.len() as int,
            ),
        final (catalog).sessions@ == old(catalog).sessions@,
        final (catalog).pages@ == old(catalog).pages@,
        final (catalog).seeds@ == old(catalog).seeds@,
{
    let (analysis, domain_scores, pagerank_scores) = analyze_collected_backlinks(
        backlinks,
        target_url,
        now,
    );
    catalog.store_backlinks(backlinks);
    catalog.store_domain_scores(&domain_scores);
    catalog.store_pagerank_scores(&pagerank_scores);
    proof {
        assert(domain_table_for(domain_scores@, backlinks@, now));
        assert(pagerank_table_for(pagerank_scores@, backlinks@, now));
    }
    analysis
}

} // verus!
