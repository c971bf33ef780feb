//! Scoring over a collected set of backlinks: per-domain authority, the
//! spam heuristic, and the one-pass PageRank-style weighting, each
//! normalized to the range 0 to 100.

use vstd::prelude::*;

use crate::models::{BacklinkAnalysis, BacklinkData, DomainScore, PageRankScore};
use crate::text::{chars_of, contains_chars_ci, contains_ci_spec, eq_chars, string_from_chars, vec_contains_str};
use crate::urls::{extract_domain, url_host_of, url_parses};

verus! {

/// Whether `b` counts toward the domain `d`: its source URL parses and
/// names `d` as its host.
pub open spec fn counts_toward(b: BacklinkData, d: Seq<char>) -> bool {
    url_parses(b.source_url@) && url_host_of(b.source_url@) == d
}

/// How many of the first `n` backlinks count toward `d`.
pub open spec fn count_from_domain_upto(bs: Seq<BacklinkData>, d: Seq<char>, n: int) -> nat
    recommends
        n <= bs.len(),
    decreases n,
{
    if n <= 0 {
        0
    } else {
        count_from_domain_upto(bs, d, n - 1) + if counts_toward(bs[n - 1], d) {
            1nat
        } else {
            0nat
        }
    }
}

/// How many backlinks of `bs` count toward `d`: the domain's raw score,
/// and also its out-degree in the one-pass PageRank.
pub open spec fn count_from_domain(bs: Seq<BacklinkData>, d: Seq<char>) -> nat {
    count_from_domain_upto(bs, d, bs.len() as int)
}

/// The distinct source domains of `bs[i..]`, in order of first appearance,
/// after those already in `acc`.
pub open spec fn domains_list_rec(bs: Seq<BacklinkData>, i: int, acc: Seq<Seq<char>>) -> Seq<
    Seq<char>,
>
    recommends
        0 <= i <= bs.len(),
    decreases bs.len() - i,
{
    if i < 0 || i >= bs.len() {
        acc
    } else if url_parses(bs[i].source_url@) && !acc.contains(url_host_of(bs[i].source_url@)) {
        domains_list_rec(bs, i + 1, acc.push(url_host_of(bs[i].source_url@)))
    } else {
        domains_list_rec(bs, i + 1, acc)
    }
}

/// The distinct referring domains of `bs`, in order of first appearance.
pub open spec fn referring_domains(bs: Seq<BacklinkData>) -> Seq<Seq<char>> {
    domains_list_rec(bs, 0, Seq::empty())
}

/// The largest raw count among the domains `ds`.
pub open spec fn max_count_from(bs: Seq<BacklinkData>, ds: Seq<Seq<char>>) -> nat
    decreases ds.len(),
{
    if ds.len() == 0 {
        0
    } else {
        let m = max_count_from(bs, ds.drop_last());
        let c = count_from_domain(bs, ds.last());
        if c > m {
            c
        } else {
            m
        }
    }
}

/// The largest raw count among the referring domains of `bs`.
pub open spec fn max_domain_count(bs: Seq<BacklinkData>) -> nat {
    max_count_from(bs, referring_domains(bs))
}

/// The normalized authority of domain `d` over the set `bs`: its raw count
/// scaled so that the best-represented domain scores 100; 0 for a domain
/// with no backlinks.
pub open spec fn domain_authority_spec(bs: Seq<BacklinkData>, d: Seq<char>) -> int {
    if referring_domains(bs).contains(d) && max_domain_count(bs) > 0 {
        (count_from_domain(bs, d) as int) * 100 / (max_domain_count(bs) as int)
    } else {
        0
    }
}

/// No domain's raw count exceeds the maximum over a list it belongs to.
proof fn lemma_max_count_ge(bs: Seq<BacklinkData>, ds: Seq<Seq<char>>, i: int)
    requires
        0 <= i < ds.len(),
    ensures
        count_from_domain(bs, ds[i]) <= max_count_from(bs, ds),
    decreases ds.len(),
{
    if i == ds.len() - 1 {
    } else {
        lemma_max_count_ge(bs, ds.drop_last(), i);
    }
}

/// The maximum over a non-empty list is attained by one of its members.
proof fn lemma_max_count_attained(bs: Seq<BacklinkData>, ds: Seq<Seq<char>>)
    requires
        ds.len() > 0,
    ensures
        exists|i: int| 0 <= i < ds.len() && count_from_domain(bs, ds[i]) == max_count_from(bs, ds),
    decreases ds.len(),
{
    let m = max_count_from(bs, ds.drop_last());
    let c = count_from_domain(bs, ds.last());
    if c > m {
        assert(count_from_domain(bs, ds[ds.len() - 1]) == max_count_from(bs, ds));
    } else if ds.len() == 1 {
        assert(count_from_domain(bs, ds[0]) == max_count_from(bs, ds));
    } else {
        lemma_max_count_attained(bs, ds.drop_last());
        let i = choose|i: int|
            0 <= i < ds.drop_last().len() && count_from_domain(bs, ds.drop_last()[i])
                == max_count_from(bs, ds.drop_last());
        assert(count_from_domain(bs, ds[i]) == max_count_from(bs, ds));
    }
}

/// A backlink that counts toward `d` makes the count of `d` positive.
proof fn lemma_count_positive(bs: Seq<BacklinkData>, d: Seq<char>, j: int, n: int)
    requires
        0 <= j < n <= bs.len(),
        counts_toward(bs[j], d),
    ensures
        count_from_domain_upto(bs, d, n) >= 1,
    decreases n,
{
    if j < n - 1 {
        lemma_count_positive(bs, d, j, n - 1);
    }
}

/// Every domain in the list is witnessed by some backlink at or after `i`,
/// unless it was already in `acc`.
proof fn lemma_domains_witnessed(bs: Seq<BacklinkData>, i: int, acc: Seq<Seq<char>>, d: Seq<char>)
    requires
        0 <= i <= bs.len(),
        domains_list_rec(bs, i, acc).contains(d),
    ensures
        acc.contains(d) || exists|j: int| i <= j < bs.len() && counts_toward(bs[j], d),
    decreases bs.len() - i,
{
    if i >= bs.len() {
    } else if url_parses(bs[i].source_url@) && !acc.contains(url_host_of(bs[i].source_url@)) {
        let h = url_host_of(bs[i].source_url@);
        lemma_domains_witnessed(bs, i + 1, acc.push(h), d);
        if acc.push(h).contains(d) && !acc.contains(d) {
            assert(d == h);
            assert(counts_toward(bs[i], d));
        }
    } else {
        lemma_domains_witnessed(bs, i + 1, acc, d);
    }
}

/// Domain authority is normalized: where any backlink names a parseable
/// source, some referring domain scores exactly 100; and no domain ever
/// scores more than 100.
pub proof fn lemma_domain_authority_normalized(bs: Seq<BacklinkData>)
    ensures
        referring_domains(bs).len() > 0 ==> exists|d: Seq<char>|
            referring_domains(bs).contains(d) && domain_authority_spec(bs, d) == 100,
        forall|d: Seq<char>| 0 <= #[trigger] domain_authority_spec(bs, d) <= 100,
{
    let ds = referring_domains(bs);
    if ds.len() > 0 {
        lemma_max_count_attained(bs, ds);
        let i = choose|i: int|
            0 <= i < ds.len() && count_from_domain(bs, ds[i]) == max_count_from(bs, ds);
        lemma_domains_witnessed(bs, 0, Seq::empty(), ds[i]);
        let j = choose|j: int| 0 <= j < bs.len() && counts_toward(bs[j], ds[i]);
        lemma_count_positive(bs, ds[i], j, bs.len() as int);
        let m = max_domain_count(bs);
        assert(ds.contains(ds[i]));
        assert(m >= 1);
        assert((m as int) * 100 / (m as int) == 100) by (nonlinear_arith)
            requires
                m >= 1,
        ;
        assert(domain_authority_spec(bs, ds[i]) == 100);
    }
    assert forall|d: Seq<char>| 0 <= #[trigger] domain_authority_spec(bs, d) <= 100 by {
        if ds.contains(d) && max_domain_count(bs) > 0 {
            let i = choose|i: int| 0 <= i < ds.len() && ds[i] == d;
            lemma_max_count_ge(bs, ds, i);
            let c = count_from_domain(bs, d);
            let m = max_domain_count(bs);
            assert((c as int) * 100 / (m as int) <= 100) by (nonlinear_arith)
                requires
                    0 <= c <= m,
                    m >= 1,
            ;
        }
    }
}

/// The distinct referring domains of `backlinks`, in order of first
/// appearance.
pub fn collect_referring_domains(backlinks: &Vec<BacklinkData>) -> (r: Vec<String>)
    ensures
        r@.map_values(|s: String| s@) == referring_domains(backlinks@),
{
    let mut doms: Vec<String> = Vec::new();
    let mut i: usize = 0;
    assert(doms@.map_values(|s: String| s@) =~= Seq::<Seq<char>>::empty());
    while i < backlinks.len()
        invariant
            i <= backlinks@.len(),
            referring_domains(backlinks@) == domains_list_rec(
                backlinks@,
                i as int,
                doms@.map_values(|s: String| s@),
            ),
        decreases backlinks@.len() - i,
    {
        let ghost acc0 = doms@.map_values(|s: String| s@);
        match extract_domain(backlinks[i].source_url.as_str()) {
            Some(h) => {
                let hc = chars_of(h.as_str());
                if !vec_contains_str(&doms, &hc) {
                    doms.push(h);
                    proof {
                        assert(doms@.map_values(|s: String| s@) =~= acc0.push(
                            url_host_of(backlinks@[i as int].source_url@),
                        ));
                    }
                }
            },
            None => {},
        }
        i = i + 1;
    }
    doms
}

/// How many backlinks of `backlinks` count toward the domain `d`.
pub fn count_backlinks_from(backlinks: &Vec<BacklinkData>, d: &Vec<char>) -> (r: usize)
    ensures
        r == count_from_domain(backlinks@, d@),
{
    let mut n: usize = 0;
    let mut i: usize = 0;
    while i < backlinks.len()
        invariant
            i <= backlinks@.len(),
            n == count_from_domain_upto(backlinks@, d@, i as int),
            n <= i,
        decreases backlinks@.len() - i,
    {
        match extract_domain(backlinks[i].source_url.as_str()) {
            Some(h) => {
                let hc = chars_of(h.as_str());
                if eq_chars(&hc, d) {
                    n = n + 1;
                }
            },
            None => {},
        }
        i = i + 1;
    }
    n
}

/// The authority score of every referring domain of `backlinks`: the raw
/// backlink count per domain, normalized so the best-represented domain
/// scores 100.
pub fn calculate_domain_authority(backlinks: &Vec<BacklinkData>, now: i64) -> (r: Vec<DomainScore>)
    ensures
        r@.len() == referring_domains(backlinks@).len(),
        forall|i: int|
            0 <= i < r@.len() ==> {
                &&& r@[i].domain@ == referring_domains(backlinks@)[i]
                &&& r@[i].total_backlinks == count_from_domain(
                    backlinks@,
                    referring_domains(backlinks@)[i],
                )
                &&& r@[i].authority_score == domain_authority_spec(
                    backlinks@,
                    referring_domains(backlinks@)[i],
                )
                &&& r@[i].last_updated == now
            },
{
    let ghost bs = backlinks@;
    let ghost ds = referring_domains(bs);
    let doms = collect_referring_domains(backlinks);
    let mut counts: Vec<usize> = Vec::new();
    let mut max_raw: usize = 0;
    let mut i: usize = 0;
    while i < doms.len()
        invariant
            bs == backlinks@,
            ds == referring_domains(bs),
            doms@.map_values(|s: String| s@) == ds,
            i <= doms@.len(),
            counts@.len() == i,
            forall|j: int| 0 <= j < i ==> counts@[j] == count_from_domain(bs, ds[j]),
            max_raw == max_count_from(bs, ds.take(i as int)),
        decreases doms@.len() - i,
    {
        let dc = chars_of(doms[i].as_str());
        proof {
            assert(dc@ == ds[i as int]);
        }
        let c = count_backlinks_from(backlinks, &dc);
        counts.push(c);
        if c > max_raw {
            max_raw = c;
        }
        proof {
            assert(ds.take(i + 1 as int).drop_last() =~= ds.take(i as int));
            assert(ds.take(i + 1 as int).last() == ds[i as int]);
        }
        i = i + 1;
    }
    proof {
        assert(ds.take(ds.len() as int) =~= ds);
        assert(max_raw == max_domain_count(bs));
    }
    let mut scores: Vec<DomainScore> = Vec::new();
    let mut k: usize = 0;
    while k < doms.len()
        invariant
            bs == backlinks@,
            ds == referring_domains(bs),
            doms@.map_values(|s: String| s@) == ds,
            counts@.len() == doms@.len(),
            forall|j: int| 0 <= j < doms@.len() ==> counts@[j] == count_from_domain(bs, ds[j]),
            max_raw == max_domain_count(bs),
            k <= doms@.len(),
            scores@.len() == k,
            forall|j: int|
                0 <= j < k ==> {
                    &&& scores@[j].domain@ == ds[j]
                    &&& scores@[j].total_backlinks == count_from_domain(bs, ds[j])
                    &&& scores@[j].authority_score == domain_authority_spec(bs, ds[j])
                    &&& scores@[j].last_updated == now
                },
        decreases doms@.len() - k,
    {
        let dc = chars_of(doms[k].as_str());
        proof {
            assert(dc@ == ds[k as int]);
            assert(ds.contains(ds[k as int]));
            lemma_max_count_ge(bs, ds, k as int);
        }
        let c = counts[k];
        proof {
            if max_raw > 0 {
                assert((c as int) * 100 / (max_raw as int) <= 100) by (nonlinear_arith)
                    requires
                        0 <= c <= max_raw,
                        max_raw >= 1,
                ;
            }
        }
        let score: u64 = if max_raw > 0 {
            (((c as u128) * 100) / (max_raw as u128)) as u64
        } else {
            0
        };
        proof {
            assert(score == domain_authority_spec(bs, ds[k as int]));
        }
        let d = DomainScore {
            domain: string_from_chars(&dc),
            authority_score: score,
            total_backlinks: c,
            unique_referring_domains: 0,
            last_updated: now,
        };
        scores.push(d);
        proof {
            assert(scores@[k as int].domain@ == ds[k as int]);
            assert(scores@[k as int].total_backlinks == count_from_domain(bs, ds[k as int]));
            assert(scores@[k as int].authority_score == domain_authority_spec(bs, ds[k as int]));
            assert(scores@[k as int].last_updated == now);
        }
        k = k + 1;
    }
    scores
}

/// The words whose presence marks a backlink as spam.
pub open spec fn spam_term(t: Seq<char>) -> bool {
    ||| t == "casino"@
    ||| t == "poker"@
    ||| t == "viagra"@
    ||| t == "pharmacy"@
    ||| t == "loan"@
    ||| t == "insurance"@
    ||| t == "free-money"@
    ||| t == "make-money-fast"@
    ||| t == "weight-loss"@
    ||| t == "dating"@
}

/// Whether the spam heuristic flags `b`: some spam word occurs,
/// case-insensitively, in its source URL, its anchor text or its context.
pub open spec fn is_spam_backlink(b: BacklinkData) -> bool {
    exists|t: Seq<char>|
        #[trigger] spam_term(t) && (contains_ci_spec(b.source_url@, t) || contains_ci_spec(
            b.anchor_text@,
            t,
        ) || contains_ci_spec(b.context@, t))
}

/// The spam-flagged backlinks among the first `n` of `bs`, in order.
pub open spec fn spam_backlinks_upto(bs: Seq<BacklinkData>, n: int) -> Seq<BacklinkData>
    recommends
        n <= bs.len(),
    decreases n,
{
    if n <= 0 {
        Seq::empty()
    } else if is_spam_backlink(bs[n - 1]) {
        spam_backlinks_upto(bs, n - 1).push(bs[n - 1])
    } else {
        spam_backlinks_upto(bs, n - 1)
    }
}

/// The spam-flagged backlinks of `bs`, in order.
pub open spec fn spam_backlinks_spec(bs: Seq<BacklinkData>) -> Seq<BacklinkData> {
    spam_backlinks_upto(bs, bs.len() as int)
}

/// Whether `t` occurs, case-insensitively, in `b`'s source URL, anchor text
/// or context.
fn backlink_matches_term(b: &BacklinkData, t: &Vec<char>) -> (r: bool)
    ensures
        r == (contains_ci_spec(b.source_url@, t@) || contains_ci_spec(b.anchor_text@, t@)
            || contains_ci_spec(b.context@, t@)),
{
    let src = chars_of(b.source_url.as_str());
    if contains_chars_ci(&src, t) {
        return true;
    }
    let anchor = chars_of(b.anchor_text.as_str());
    if contains_chars_ci(&anchor, t) {
        return true;
    }
    let ctx = chars_of(b.context.as_str());
    contains_chars_ci(&ctx, t)
}

/// Whether the spam heuristic flags `b`.
pub fn backlink_is_spam(b: &BacklinkData) -> (r: bool)
    ensures
        r == is_spam_backlink(*b),
{
    let terms = [
        "casino", "poker", "viagra", "pharmacy", "loan", "insurance", "free-money",
        "make-money-fast", "weight-loss", "dating",
    ];
    let mut i: usize = 0;
    let mut found = false;
    while i < 10
        invariant
            i <= 10,
            terms@.len() == 10,
            forall|j: int| 0 <= j < 10 ==> spam_term(terms@[j]@),
            forall|t: Seq<char>| spam_term(t) ==> exists|j: int| 0 <= j < 10 && terms@[j]@ == t,
            found == exists|j: int|
                0 <= j < i && (contains_ci_spec(b.source_url@, terms@[j]@) || contains_ci_spec(
                    b.anchor_text@,
                    terms@[j]@,
                ) || contains_ci_spec(b.context@, terms@[j]@)),
        decreases 10 - i,
    {
        let t = chars_of(terms[i]);
        if backlink_matches_term(b, &t) {
            found = true;
        }
        i = i + 1;
    }
    proof {
        if found {
            let j = choose|j: int|
                0 <= j < 10 && (contains_ci_spec(b.source_url@, terms@[j]@) || contains_ci_spec(
                    b.anchor_text@,
                    terms@[j]@,
                ) || contains_ci_spec(b.context@, terms@[j]@));
            assert(spam_term(terms@[j]@));
            assert(is_spam_backlink(*b));
        } else if is_spam_backlink(*b) {
            let t = choose|t: Seq<char>|
                #[trigger] spam_term(t) && (contains_ci_spec(b.source_url@, t)
                    || contains_ci_spec(b.anchor_text@, t) || contains_ci_spec(b.context@, t));
            let j = choose|j: int| 0 <= j < 10 && terms@[j]@ == t;
            assert(contains_ci_spec(b.source_url@, terms@[j]@) || contains_ci_spec(
                b.anchor_text@,
                terms@[j]@,
            ) || contains_ci_spec(b.context@, terms@[j]@));
        }
    }
    found
}

/// A field-for-field copy of `b`.
pub fn clone_backlink(b: &BacklinkData) -> (r: BacklinkData)
    ensures
        r == *b,
{
    let r = BacklinkData {
        source_url: b.source_url.clone(),
        target_url: b.target_url.clone(),
        anchor_text: b.anchor_text.clone(),
        context: b.context.clone(),
        page_title: b.page_title.clone(),
        domain_authority: b.domain_authority,
        is_nofollow: b.is_nofollow,
        discovered_at: b.discovered_at,
    };
    r
}

/// The backlinks of `backlinks` that the spam heuristic flags, in order.
pub fn detect_spam_backlinks(backlinks: &Vec<BacklinkData>) -> (r: Vec<BacklinkData>)
    ensures
        r@ == spam_backlinks_spec(backlinks@),
{
    let mut r: Vec<BacklinkData> = Vec::new();
    let mut i: usize = 0;
    while i < backlinks.len()
        invariant
            i <= backlinks@.len(),
            r@ == spam_backlinks_upto(backlinks@, i as int),
        decreases backlinks@.len() - i,
    {
        if backlink_is_spam(&backlinks[i]) {
            r.push(clone_backlink(&backlinks[i]));
        }
        i = i + 1;
    }
    r
}

/// The scale on which raw PageRank weights are accumulated: each backlink
/// contributes the scale divided by its source domain's out-degree.
pub open spec fn pagerank_scale() -> int {
    1000000
}

/// The raw PageRank weight that the first `n` backlinks give the URL `t`:
/// each backlink with a parseable source pointing at `t` adds the scale
/// divided by its source domain's backlink count.
pub open spec fn pagerank_raw_upto(bs: Seq<BacklinkData>, t: Seq<char>, n: int) -> int
    recommends
        n <= bs.len(),
    decreases n,
{
    if n <= 0 {
        0
    } else {
        pagerank_raw_upto(bs, t, n - 1) + if url_parses(bs[n - 1].source_url@) && bs[n
            - 1].target_url@ == t {
            pagerank_scale() / (count_from_domain(bs, url_host_of(bs[n - 1].source_url@)) as int)
        } else {
            0
        }
    }
}

/// The raw PageRank weight of `t` over all of `bs`.
pub open spec fn pagerank_raw(bs: Seq<BacklinkData>, t: Seq<char>) -> int {
    pagerank_raw_upto(bs, t, bs.len() as int)
}

/// The distinct target URLs of `bs[i..]` whose backlink has a parseable
/// source, in order of first appearance, after those already in `acc`.
pub open spec fn targets_list_rec(bs: Seq<BacklinkData>, i: int, acc: Seq<Seq<char>>) -> Seq<
    Seq<char>,
>
    recommends
        0 <= i <= bs.len(),
    decreases bs.len() - i,
{
    if i < 0 || i >= bs.len() {
        acc
    } else if url_parses(bs[i].source_url@) && !acc.contains(bs[i].target_url@) {
        targets_list_rec(bs, i + 1, acc.push(bs[i].target_url@))
    } else {
        targets_list_rec(bs, i + 1, acc)
    }
}

/// The distinct scored target URLs of `bs`, in order of first appearance.
pub open spec fn pagerank_targets(bs: Seq<BacklinkData>) -> Seq<Seq<char>> {
    targets_list_rec(bs, 0, Seq::empty())
}

/// The largest raw PageRank weight among the targets `ts`.
pub open spec fn max_pagerank_from(bs: Seq<BacklinkData>, ts: Seq<Seq<char>>) -> int
    decreases ts.len(),
{
    if ts.len() == 0 {
        0
    } else {
        let m = max_pagerank_from(bs, ts.drop_last());
        let c = pagerank_raw(bs, ts.last());
        if c > m {
            c
        } else {
            m
        }
    }
}

/// The largest raw PageRank weight among the targets of `bs`.
pub open spec fn max_pagerank_weight(bs: Seq<BacklinkData>) -> int {
    max_pagerank_from(bs, pagerank_targets(bs))
}

/// The normalized PageRank score of `t` over `bs`: its raw weight scaled so
/// the heaviest target scores 100; 0 for a URL no backlink points at.
pub open spec fn pagerank_score_spec(bs: Seq<BacklinkData>, t: Seq<char>) -> int {
    if pagerank_targets(bs).contains(t) && max_pagerank_weight(bs) > 0 {
        pagerank_raw(bs, t) * 100 / max_pagerank_weight(bs)
    } else {
        0
    }
}

/// Each backlink's own contribution to its target is well-defined and
/// non-negative, so raw weights are non-negative.
proof fn lemma_pagerank_raw_nonneg(bs: Seq<BacklinkData>, t: Seq<char>, n: int)
    requires
        n <= bs.len(),
    ensures
        pagerank_raw_upto(bs, t, n) >= 0,
    decreases n,
{
    if n > 0 {
        lemma_pagerank_raw_nonneg(bs, t, n - 1);
        if url_parses(bs[n - 1].source_url@) && bs[n - 1].target_url@ == t {
            let d = url_host_of(bs[n - 1].source_url@);
            lemma_count_positive(bs, d, n - 1, bs.len() as int);
        }
    }
}

/// No target's raw weight exceeds the maximum over a list it belongs to.
proof fn lemma_max_pagerank_ge(bs: Seq<BacklinkData>, ts: Seq<Seq<char>>, i: int)
    requires
        0 <= i < ts.len(),
    ensures
        pagerank_raw(bs, ts[i]) <= max_pagerank_from(bs, ts),
    decreases ts.len(),
{
    if i == ts.len() - 1 {
    } else {
        lemma_max_pagerank_ge(bs, ts.drop_last(), i);
    }
}

/// The maximum raw weight over a non-empty list is attained by a member.
proof fn lemma_max_pagerank_attained(bs: Seq<BacklinkData>, ts: Seq<Seq<char>>)
    requires
        ts.len() > 0,
    ensures
        exists|i: int| 0 <= i < ts.len() && pagerank_raw(bs, ts[i]) == max_pagerank_from(bs, ts),
    decreases ts.len(),
{
    let m = max_pagerank_from(bs, ts.drop_last());
    let c = pagerank_raw(bs, ts.last());
    if c > m {
        assert(pagerank_raw(bs, ts[ts.len() - 1]) == max_pagerank_from(bs, ts));
    } else if ts.len() == 1 {
        lemma_pagerank_raw_nonneg(bs, ts[0], bs.len() as int);
        assert(pagerank_raw(bs, ts[0]) == max_pagerank_from(bs, ts));
    } else {
        lemma_max_pagerank_attained(bs, ts.drop_last());
        let i = choose|i: int|
            0 <= i < ts.drop_last().len() && pagerank_raw(bs, ts.drop_last()[i])
                == max_pagerank_from(bs, ts.drop_last());
        assert(pagerank_raw(bs, ts[i]) == max_pagerank_from(bs, ts));
    }
}

/// PageRank scores are normalized: where any target carries positive
/// weight, some target scores exactly 100, and no URL scores more than 100.
pub proof fn lemma_pagerank_normalized(bs: Seq<BacklinkData>)
    ensures
        max_pagerank_weight(bs) > 0 ==> exists|t: Seq<char>|
            pagerank_targets(bs).contains(t) && pagerank_score_spec(bs, t) == 100,
        forall|t: Seq<char>| 0 <= #[trigger] pagerank_score_spec(bs, t) <= 100,
{
    let ts = pagerank_targets(bs);
    if max_pagerank_weight(bs) > 0 {
        assert(ts.len() > 0);
        lemma_max_pagerank_attained(bs, ts);
        let i = choose|i: int|
            0 <= i < ts.len() && pagerank_raw(bs, ts[i]) == max_pagerank_from(bs, ts);
        let m = max_pagerank_weight(bs);
        assert(ts.contains(ts[i]));
        assert(m * 100 / m == 100) by (nonlinear_arith)
            requires
                m >= 1,
        ;
        assert(pagerank_score_spec(bs, ts[i]) == 100);
    }
    assert forall|t: Seq<char>| 0 <= #[trigger] pagerank_score_spec(bs, t) <= 100 by {
        if ts.contains(t) && max_pagerank_weight(bs) > 0 {
            let i = choose|i: int| 0 <= i < ts.len() && ts[i] == t;
            lemma_max_pagerank_ge(bs, ts, i);
            lemma_pagerank_raw_nonneg(bs, t, bs.len() as int);
            let c = pagerank_raw(bs, t);
            let m = max_pagerank_weight(bs);
            assert(c * 100 / m <= 100) by (nonlinear_arith)
                requires
                    0 <= c <= m,
                    m >= 1,
            ;
        }
    }
}

/// The distinct scored target URLs of `backlinks`, in order of first
/// appearance.
fn collect_pagerank_targets(backlinks: &Vec<BacklinkData>) -> (r: Vec<String>)
    ensures
        r@.map_values(|s: String| s@) == pagerank_targets(backlinks@),
{
    let mut targets: Vec<String> = Vec::new();
    let mut i: usize = 0;
    assert(targets@.map_values(|s: String| s@) =~= Seq::<Seq<char>>::empty());
    while i < backlinks.len()
        invariant
            i <= backlinks@.len(),
            pagerank_targets(backlinks@) == targets_list_rec(
                backlinks@,
                i as int,
                targets@.map_values(|s: String| s@),
            ),
        decreases backlinks@.len() - i,
    {
        let ghost acc0 = targets@.map_values(|s: String| s@);
        match extract_domain(backlinks[i].source_url.as_str()) {
            Some(_) => {
                let tc = chars_of(backlinks[i].target_url.as_str());
                if !vec_contains_str(&targets, &tc) {
                    targets.push(string_from_chars(&tc));
                    proof {
                        assert(targets@.map_values(|s: String| s@) =~= acc0.push(
                            backlinks@[i as int].target_url@,
                        ));
                    }
                }
            },
            None => {},
        }
        i = i + 1;
    }
    targets
}

/// The raw PageRank weight of the URL `t` over `backlinks`.
fn pagerank_raw_weight(backlinks: &Vec<BacklinkData>, t: &Vec<char>) -> (r: u64)
    requires
        backlinks@.len() < 1000000000000,
    ensures
        r == pagerank_raw(backlinks@, t@),
{
    let ghost bs = backlinks@;
    let mut sum: u64 = 0;
    let mut i: usize = 0;
    while i < backlinks.len()
        invariant
            bs == backlinks@,
            bs.len() < 1000000000000,
            i <= bs.len(),
            sum == pagerank_raw_upto(bs, t@, i as int),
            sum <= i * 1000000,
        decreases bs.len() - i,
    {
        match extract_domain(backlinks[i].source_url.as_str()) {
            Some(h) => {
                let tc = chars_of(backlinks[i].target_url.as_str());
                if eq_chars(&tc, t) {
                    let hc = chars_of(h.as_str());
                    let cnt = count_backlinks_from(backlinks, &hc);
                    proof {
                        assert(counts_toward(bs[i as int], hc@));
                        lemma_count_positive(bs, hc@, i as int, bs.len() as int);
                    }
                    sum = sum + 1000000 / (cnt as u64);
                }
            },
            None => {},
        }
        i = i + 1;
    }
    sum
}

/// The one-pass PageRank score of every target of `backlinks`: each
/// backlink weighs in at the scale over its domain's out-degree, and the
/// weights are normalized so the heaviest target scores 100.
pub fn calculate_pagerank(backlinks: &Vec<BacklinkData>, now: i64) -> (r: Vec<PageRankScore>)
    requires
        backlinks@.len() < 1000000000000,
    ensures
        r@.len() == pagerank_targets(backlinks@).len(),
        forall|i: int|
            0 <= i < r@.len() ==> {
                &&& r@[i].url@ == pagerank_targets(backlinks@)[i]
                &&& r@[i].pagerank_score == pagerank_score_spec(
                    backlinks@,
                    pagerank_targets(backlinks@)[i],
                )
                &&& r@[i].last_calculated == now
            },
{
    let ghost bs = backlinks@;
    let ghost ts = pagerank_targets(bs);
    let targets = collect_pagerank_targets(backlinks);
    let mut raws: Vec<u64> = Vec::new();
    let mut max_raw: u64 = 0;
    let mut i: usize = 0;
    while i < targets.len()
        invariant
            bs == backlinks@,
            bs.len() < 1000000000000,
            ts == pagerank_targets(bs),
            targets@.map_values(|s: String| s@) == ts,
            i <= targets@.len(),
            raws@.len() == i,
            forall|j: int| 0 <= j < i ==> raws@[j] == pagerank_raw(bs, ts[j]),
            max_raw == max_pagerank_from(bs, ts.take(i as int)),
        decreases targets@.len() - i,
    {
        let tc = chars_of(targets[i].as_str());
        proof {
            assert(tc@ == ts[i as int]);
        }
        let w = pagerank_raw_weight(backlinks, &tc);
        raws.push(w);
        if w > max_raw {
            max_raw = w;
        }
        proof {
            assert(ts.take(i + 1 as int).drop_last() =~= ts.take(i as int));
            assert(ts.take(i + 1 as int).last() == ts[i as int]);
        }
        i = i + 1;
    }
    proof {
        assert(ts.take(ts.len() as int) =~= ts);
        assert(max_raw == max_pagerank_weight(bs));
    }
    let mut scores: Vec<PageRankScore> = Vec::new();
    let mut k: usize = 0;
    while k < targets.len()
        invariant
            bs == backlinks@,
            ts == pagerank_targets(bs),
            targets@.map_values(|s: String| s@) == ts,
            raws@.len() == targets@.len(),
            forall|j: int| 0 <= j < targets@.len() ==> raws@[j] == pagerank_raw(bs, ts[j]),
            max_raw == max_pagerank_weight(bs),
            k <= targets@.len(),
            scores@.len() == k,
            forall|j: int|
                0 <= j < k ==> {
                    &&& scores@[j].url@ == ts[j]
                    &&& scores@[j].pagerank_score == pagerank_score_spec(bs, ts[j])
                    &&& scores@[j].last_calculated == now
                },
        decreases targets@.len() - k,
    {
        let tc = chars_of(targets[k].as_str());
        let w = raws[k];
        let score: u64 = if max_raw > 0 {
            (((w as u128) * 100) / (max_raw as u128)) as u64
        } else {
            0
        };
        proof {
            assert(ts.contains(ts[k as int]));
            lemma_max_pagerank_ge(bs, ts, k as int);
            if max_raw > 0 {
                assert((w as int) * 100 / (max_raw as int) <= 100) by (nonlinear_arith)
                    requires
                        0 <= w <= max_raw,
                        max_raw >= 1,
                ;
                assert(score == pagerank_score_spec(bs, ts[k as int]));
            }
        }
        let p = PageRankScore {
            url: string_from_chars(&tc),
            pagerank_score: score,
            last_calculated: now,
        };
        scores.push(p);
        proof {
            assert(scores@[k as int].url@ == ts[k as int]);
            assert(scores@[k as int].pagerank_score == pagerank_score_spec(bs, ts[k as int]));
            assert(scores@[k as int].last_calculated == now);
        }
        k = k + 1;
    }
    scores
}

/// The authority score the computed table gives the domain `d`: the stored
/// score where `d` is listed, 0 where it is not.
fn lookup_domain_score(scores: &Vec<DomainScore>, d: &Vec<char>, ghost_bs: Ghost<
    Seq<BacklinkData>,
>) -> (r: u64)
    requires
        scores@.len() == referring_domains(ghost_bs@).len(),
        forall|i: int|
            0 <= i < scores@.len() ==> scores@[i].domain@ == referring_domains(ghost_bs@)[i]
                && scores@[i].authority_score == domain_authority_spec(
                ghost_bs@,
                referring_domains(ghost_bs@)[i],
            ),
    ensures
        r == domain_authority_spec(ghost_bs@, d@),
{
    let ghost ds = referring_domains(ghost_bs@);
    let mut i: usize = 0;
    while i < scores.len()
        invariant
            ds == referring_domains(ghost_bs@),
            scores@.len() == ds.len(),
            forall|j: int|
                0 <= j < scores@.len() ==> scores@[j].domain@ == ds[j]
                    && scores@[j].authority_score == domain_authority_spec(ghost_bs@, ds[j]),
            i <= scores@.len(),
            forall|j: int| 0 <= j < i ==> ds[j] != d@,
        decreases scores@.len() - i,
    {
        let dc = chars_of(scores[i].domain.as_str());
        if eq_chars(&dc, d) {
            proof {
                assert(scores@[i as int].domain@ == ds[i as int]);
                assert(ds[i as int] == d@);
                assert(scores@[i as int].authority_score == domain_authority_spec(
                    ghost_bs@,
                    ds[i as int],
                ));
            }
            return scores[i].authority_score;
        }
        i = i + 1;
    }
    proof {
        if ds.contains(d@) {
            let j = choose|j: int| 0 <= j < ds.len() && ds[j] == d@;
            assert(false);
        }
    }
    0
}

/// The PageRank score the computed table gives the URL `t`: the stored
/// score where `t` is listed, 0 where it is not.
fn lookup_pagerank_score(scores: &Vec<PageRankScore>, t: &Vec<char>, ghost_bs: Ghost<
    Seq<BacklinkData>,
>) -> (r: u64)
    requires
        scores@.len() == pagerank_targets(ghost_bs@).len(),
        forall|i: int|
            0 <= i < scores@.len() ==> scores@[i].url@ == pagerank_targets(ghost_bs@)[i]
                && scores@[i].pagerank_score == pagerank_score_spec(
                ghost_bs@,
                pagerank_targets(ghost_bs@)[i],
            ),
    ensures
        r == pagerank_score_spec(ghost_bs@, t@),
{
    let ghost ts = pagerank_targets(ghost_bs@);
    let mut i: usize = 0;
    while i < scores.len()
        invariant
            ts == pagerank_targets(ghost_bs@),
            scores@.len() == ts.len(),
            forall|j: int|
                0 <= j < scores@.len() ==> scores@[j].url@ == ts[j]
                    && scores@[j].pagerank_score == pagerank_score_spec(ghost_bs@, ts[j]),
            i <= scores@.len(),
            forall|j: int| 0 <= j < i ==> ts[j] != t@,
        decreases scores@.len() - i,
    {
        let tc = chars_of(scores[i].url.as_str());
        if eq_chars(&tc, t) {
            proof {
                assert(scores@[i as int].url@ == ts[i as int]);
                assert(ts[i as int] == t@);
                assert(scores@[i as int].pagerank_score == pagerank_score_spec(
                    ghost_bs@,
                    ts[i as int],
                ));
            }
            return scores[i].pagerank_score;
        }
        i = i + 1;
    }
    proof {
        if ts.contains(t@) {
            let j = choose|j: int| 0 <= j < ts.len() && ts[j] == t@;
            assert(false);
        }
    }
    0
}

/// The domain key the analysis reads the target's authority under: the
/// target's host where it parses, the empty string where it does not.
pub open spec fn target_domain_key(target: Seq<char>) -> Seq<char> {
    if url_parses(target) {
        url_host_of(target)
    } else {
        Seq::empty()
    }
}

/// Scores a collected backlink set against its target URL: computes every
/// domain's authority and every target's PageRank, counts the spam-flagged
/// links, and reads off the target's own two scores.
pub fn analyze_collected_backlinks(backlinks: &Vec<BacklinkData>, target_url: &str, now: i64) -> (r:
    (BacklinkAnalysis, Vec<DomainScore>, Vec<PageRankScore>))
    requires
        backlinks@.len() < 1000000000000,
    ensures
        r.0.total_backlinks == backlinks@.len(),
        r.0.unique_domains == referring_domains(backlinks@).len(),
        r.0.spam_backlinks == spam_backlinks_spec(backlinks@).len(),
        r.0.domain_authority == domain_authority_spec(backlinks@, target_domain_key(target_url@)),
        r.0.pagerank_score == pagerank_score_spec(backlinks@, target_url@),
        domain_table_for(r.1@, backlinks@, now),
        pagerank_table_for(r.2@, backlinks@, now),
{
    let ghost bs = backlinks@;
    let domain_scores = calculate_domain_authority(backlinks, now);
    let pagerank_scores = calculate_pagerank(backlinks, now);
    let spam = detect_spam_backlinks(backlinks);
    let target_key: Vec<char> = match extract_domain(target_url) {
        Some(h) => chars_of(h.as_str()),
        None => Vec::new(),
    };
    proof {
        assert(target_key@ == target_domain_key(target_url@));
    }
    let authority = lookup_domain_score(&domain_scores, &target_key, Ghost(bs));
    let target_chars = chars_of(target_url);
    let pagerank = lookup_pagerank_score(&pagerank_scores, &target_chars, Ghost(bs));
    let ghost sbs = spam_backlinks_spec(bs);
    let analysis = BacklinkAnalysis {
        total_backlinks: backlinks.len(),
        unique_domains: domain_scores.len(),
        spam_backlinks: spam.len(),
        domain_authority: authority,
        pagerank_score: pagerank,
    };
    proof {
        assert(domain_table_for(domain_scores@, bs, now));
        assert(pagerank_table_for(pagerank_scores@, bs, now));
    }
    (analysis, domain_scores, pagerank_scores)
}

/// `ds` is the authority table computed over `bs` at `now`: one row per
/// referring domain, in order, carrying its count and normalized score.
pub open spec fn domain_table_for(ds: Seq<DomainScore>, bs: Seq<BacklinkData>, now: i64) -> bool {
    &&& ds.len() == referring_domains(bs).len()
    &&& forall|i: int|
        0 <= i < ds.len() ==> (#[trigger] ds[i]).domain@ == referring_domains(bs)[i]
            && ds[i].authority_score == domain_authority_spec(bs, referring_domains(bs)[i])
            && ds[i].total_backlinks == count_from_domain(bs, referring_domains(bs)[i])
            && ds[i].last_updated == now
}

/// `ps` is the PageRank table computed over `bs` at `now`: one row per
/// scored target, in order, carrying its normalized score.
pub open spec fn pagerank_table_for(
    ps: Seq<PageRankScore>,
    bs: Seq<BacklinkData>,
    now: i64,
) -> bool {
    &&& ps.len() == pagerank_targets(bs).len()
    &&& forall|i: int|
        0 <= i < ps.len() ==> (#[trigger] ps[i]).url@ == pagerank_targets(bs)[i]
            && ps[i].pagerank_score == pagerank_score_spec(bs, pagerank_targets(bs)[i])
            && ps[i].last_calculated == now
}

} // verus!
