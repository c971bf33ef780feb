//! The URL frontier: a prioritized queue with a visited set.  A URL enters
//! at most once, pops prefer higher priority and then lower depth, no entry
//! deeper than the depth limit is accepted, and no more than the page limit
//! is ever handed out.

use vstd::prelude::*;

use crate::text::{chars_of, vec_contains_str};

verus! {

/// One pending URL with its crawl depth and its priority.
pub struct FrontierEntry {
    /// The absolute URL.
    pub url: String,
    /// Higher is popped sooner.
    pub priority: i32,
    /// How many links from a seed the URL is.
    pub depth: usize,
}

/// `a` is at least as preferred as `b`: strictly higher priority, or equal
/// priority and no greater depth.
pub open spec fn at_least_as_good(a: FrontierEntry, b: FrontierEntry) -> bool {
    a.priority > b.priority || (a.priority == b.priority && a.depth <= b.depth)
}

/// The prioritized crawl queue with its visited set and limits.
pub struct Frontier {
    /// The pending entries, in arrival order.
    pub entries: Vec<FrontierEntry>,
    /// Every URL that was ever accepted, pending or handed out.
    pub visited: Vec<String>,
    /// The deepest level the frontier accepts.
    pub max_depth: usize,
    /// The most URLs the frontier will ever hand out.
    pub max_pages: usize,
    /// How many URLs have been handed out.
    pub popped: usize,
    /// The URLs handed out, in order.
    pub popped_urls: Ghost<Seq<Seq<char>>>,
}

impl Frontier {
    /// The views of the visited URLs.
    pub open spec fn spec_visited(&self) -> Seq<Seq<char>> {
        self.visited@.map_values(|s: String| s@)
    }

    /// The views of the pending URLs.
    pub open spec fn spec_pending(&self) -> Seq<Seq<char>> {
        self.entries@.map_values(|e: FrontierEntry| e.url@)
    }

    /// The frontier's invariant: visited URLs are distinct; pending URLs
    /// are distinct, visited, within the depth limit, and not yet handed
    /// out; handed-out URLs are distinct and visited; and the page limit
    /// bounds what was handed out.
    pub open spec fn well_formed(&self) -> bool {
        &&& forall|i: int, j: int|
            0 <= i < j < self.spec_visited().len() ==> self.spec_visited()[i]
                != self.spec_visited()[j]
        &&& forall|i: int, j: int|
            0 <= i < j < self.spec_pending().len() ==> self.spec_pending()[i]
                != self.spec_pending()[j]
        &&& forall|i: int|
            0 <= i < self.spec_pending().len() ==> self.spec_visited().contains(
                #[trigger] self.spec_pending()[i],
            )
        &&& forall|i: int|
            0 <= i < self.entries@.len() ==> #[trigger] self.entries@[i].depth <= self.max_depth
        &&& forall|i: int|
            0 <= i < self.spec_pending().len() ==> !self.popped_urls@.contains(
                #[trigger] self.spec_pending()[i],
            )
        &&& forall|i: int, j: int|
            0 <= i < j < self.popped_urls@.len() ==> self.popped_urls@[i] != self.popped_urls@[j]
        &&& forall|i: int|
            0 <= i < self.popped_urls@.len() ==> self.spec_visited().contains(
                #[trigger] self.popped_urls@[i],
            )
        &&& self.popped == self.popped_urls@.len()
        &&& self.popped <= self.max_pages
    }

    /// An empty frontier with the given limits.
    pub fn new(max_depth: usize, max_pages: usize) -> (r: Frontier)
        ensures
            r.well_formed(),
            r.entries@.len() == 0,
            r.visited@.len() == 0,
            r.popped == 0,
            r.popped_urls@.len() == 0,
            r.max_depth == max_depth,
            r.max_pages == max_pages,
    {
        let r = Frontier {
            entries: Vec::new(),
            visited: Vec::new(),
            max_depth,
            max_pages,
            popped: 0,
            popped_urls: Ghost(Seq::empty()),
        };
        proof {
            assert(r.spec_visited() =~= Seq::<Seq<char>>::empty());
            assert(r.spec_pending() =~= Seq::<Seq<char>>::empty());
        }
        r
    }

    /// Whether `url` would be accepted by `push`: not seen before, the
    /// page budget not exhausted, and not too deep.
    pub open spec fn accepts(&self, url: Seq<char>, depth: int) -> bool {
        !self.spec_visited().contains(url) && self.popped < self.max_pages && depth
            <= self.max_depth
    }

    /// Offers `url` to the frontier.  A URL already seen, offered after the
    /// page budget is spent, or deeper than the depth limit is dropped;
    /// otherwise it joins the queue and the visited set.
    pub fn push(&mut self, url: String, depth: usize, priority: i32)
        requires
            old(self).well_formed(),
        ensures
            final (self).well_formed(),
            final (self).max_depth == old(self).max_depth,
            final (self).max_pages == old(self).max_pages,
            final (self).popped == old(self).popped,
            final (self).popped_urls@ == old(self).popped_urls@,
            old(self).accepts(url@, depth as int) ==> {
                &&& final (self).entries@.len() == old(self).entries@.len() + 1
                &&& final (self).entries@ == old(self).entries@.push(
                    FrontierEntry { url, priority, depth },
                )
                &&& final (self).spec_visited() == old(self).spec_visited().push(url@)
            },
            !old(self).accepts(url@, depth as int) ==> {
                &&& final (self).entries@ == old(self).entries@
                &&& final (self).visited@ == old(self).visited@
            },
    {
        let uc = chars_of(url.as_str());
        if vec_contains_str(&self.visited, &uc) {
            return ;
        }
        if self.popped >= self.max_pages {
            return ;
        }
        if depth > self.max_depth {
            return ;
        }
        let ghost ov = self.spec_visited();
        let ghost op = self.spec_pending();
        let entry = FrontierEntry { url: url.clone(), priority, depth };
        self.visited.push(url);
        self.entries.push(entry);
        proof {
            assert(!ov.contains(uc@));
            assert(self.spec_visited() =~= ov.push(uc@));
            assert(self.spec_pending() =~= op.push(uc@));
            assert forall|i: int, j: int|
                0 <= i < j < self.spec_pending().len() implies self.spec_pending()[i]
                != self.spec_pending()[j] by {
                if j == op.len() {
                    assert(self.spec_pending()[i] == op[i]);
                    assert(ov.contains(op[i]));
                    assert(self.spec_pending()[j] == uc@);
                }
            }
            assert forall|i: int|
                0 <= i < self.spec_pending().len() implies self.spec_visited().contains(
                #[trigger] self.spec_pending()[i],
            ) by {
                if i < op.len() {
                    assert(ov.contains(op[i]));
                    let k = choose|k: int| 0 <= k < ov.len() && ov[k] == op[i];
                    assert(self.spec_visited()[k] == op[i]);
                } else {
                    assert(self.spec_visited()[ov.len() as int] == uc@);
                }
            }
            assert forall|i: int|
                0 <= i < self.spec_pending().len() implies !self.popped_urls@.contains(
                #[trigger] self.spec_pending()[i],
            ) by {
                if i == op.len() {
                    if self.popped_urls@.contains(uc@) {
                        assert(ov.contains(uc@));
                    }
                }
            }
            assert forall|i: int|
                0 <= i < self.popped_urls@.len() implies self.spec_visited().contains(
                #[trigger] self.popped_urls@[i],
            ) by {
                assert(ov.contains(self.popped_urls@[i]));
                let k = choose|k: int| 0 <= k < ov.len() && ov[k] == self.popped_urls@[i];
                assert(self.spec_visited()[k] == self.popped_urls@[i]);
            }
            assert forall|i: int, j: int|
                0 <= i < j < self.spec_visited().len() implies self.spec_visited()[i]
                != self.spec_visited()[j] by {
                if j == ov.len() {
                    assert(self.spec_visited()[i] == ov[i]);
                    assert(ov.contains(ov[i]));
                }
            }
        }
    }

    /// Hands out the best pending entry: highest priority, then lowest
    /// depth, then earliest arrival.  Nothing comes out of an empty queue
    /// or after the page budget is spent.
    pub fn pop(&mut self) -> (r: Option<FrontierEntry>)
        requires
            old(self).well_formed(),
        ensures
            final (self).well_formed(),
            final (self).max_depth == old(self).max_depth,
            final (self).max_pages == old(self).max_pages,
            final (self).visited@ == old(self).visited@,
            r is None <==> (old(self).entries@.len() == 0 || old(self).popped >= old(
                self,
            ).max_pages),
            r is None ==> final (self).entries@ == old(self).entries@ && final (self).popped
                == old(self).popped && final (self).popped_urls@ == old(self).popped_urls@,
            r matches Some(e) ==> {
                &&& exists|idx: int|
                    {
                        &&& 0 <= idx < old(self).entries@.len()
                        &&& old(self).entries@[idx] == e
                        &&& final (self).entries@ == old(self).entries@.remove(idx)
                        &&& forall|j: int|
                            0 <= j < idx ==> !at_least_as_good(#[trigger] old(self).entries@[j], e)
                    }
                &&& forall|j: int|
                    0 <= j < old(self).entries@.len() ==> at_least_as_good(
                        e,
                        #[trigger] old(self).entries@[j],
                    )
                &&& e.depth <= old(self).max_depth
                &&& !old(self).popped_urls@.contains(e.url@)
                &&& final (self).popped == old(self).popped + 1
                &&& final (self).popped <= final (self).max_pages
                &&& final (self).popped_urls@ == old(self).popped_urls@.push(e.url@)
            },
    {
        if self.entries.len() == 0 || self.popped >= self.max_pages {
            return None;
        }
        let mut best: usize = 0;
        let mut i: usize = 1;
        while i < self.entries.len()
            invariant
                self.entries@.len() > 0,
                best < i <= self.entries@.len(),
                forall|j: int|
                    0 <= j < i ==> at_least_as_good(
                        self.entries@[best as int],
                        #[trigger] self.entries@[j],
                    ),
                forall|j: int|
                    0 <= j < best ==> !at_least_as_good(
                        #[trigger] self.entries@[j],
                        self.entries@[best as int],
                    ),
            decreases self.entries@.len() - i,
        {
            let better = self.entries[i].priority > self.entries[best].priority || (
            self.entries[i].priority == self.entries[best].priority && self.entries[i].depth
                < self.entries[best].depth);
            if better {
                best = i;
            }
            i = i + 1;
        }
        let ghost oe = self.entries@;
        let ghost ov = self.spec_visited();
        let ghost opu = self.popped_urls@;
        let e = self.entries.remove(best);
        proof {
            assert(oe[best as int] == e);
            assert(self.entries@ == oe.remove(best as int));
            assert(self.spec_pending() =~= oe.map_values(|x: FrontierEntry| x.url@).remove(
                best as int,
            ));
            assert(oe.map_values(|x: FrontierEntry| x.url@).contains(e.url@)) by {
                assert(oe.map_values(|x: FrontierEntry| x.url@)[best as int] == e.url@);
            }
        }
        self.popped = self.popped + 1;
        self.popped_urls = Ghost(opu.push(e.url@));
        proof {
            let pend0 = oe.map_values(|x: FrontierEntry| x.url@);
            assert(pend0 == old(self).spec_pending());
            assert(opu == old(self).popped_urls@);
            assert(forall|k: int| 0 <= k < pend0.len() ==> ov.contains(#[trigger] pend0[k]));
            assert(forall|k: int| 0 <= k < pend0.len() ==> !opu.contains(#[trigger] pend0[k]));
            assert(forall|k: int, l: int| 0 <= k < l < pend0.len() ==> pend0[k] != pend0[l]);
            assert forall|i: int|
                0 <= i < self.spec_pending().len() implies ov.contains(
                #[trigger] self.spec_pending()[i],
            ) by {
                assert(self.spec_pending() == pend0.remove(best as int));
                if i < best {
                    assert(pend0.remove(best as int)[i] == pend0[i]);
                } else {
                    assert(pend0.remove(best as int)[i] == pend0[i + 1]);
                }
            }
            assert forall|i: int| 0 <= i < self.spec_pending().len() implies !self.popped_urls@
                .contains(#[trigger] self.spec_pending()[i]) by {
                assert(self.spec_pending() == pend0.remove(best as int));
                let p = self.spec_pending()[i];
                if i < best {
                    assert(p == pend0.remove(best as int)[i]);
                    assert(p == pend0[i]);
                    assert(p != pend0[best as int]);
                } else {
                    assert(p == pend0.remove(best as int)[i]);
                    assert(p == pend0[i + 1]);
                    assert(p != pend0[best as int]);
                }
                assert(!opu.contains(p));
                assert(e.url@ == pend0[best as int]);
                assert(self.popped_urls@ == opu.push(e.url@));
                if self.popped_urls@.contains(p) {
                    let w = choose|w: int|
                        0 <= w < self.popped_urls@.len() && self.popped_urls@[w] == p;
                    if w < opu.len() {
                        assert(opu.contains(p));
                    } else {
                        assert(p == e.url@);
                    }
                }
            }
            assert forall|i: int|
                0 <= i < self.popped_urls@.len() implies ov.contains(
                #[trigger] self.popped_urls@[i],
            ) by {
                if i < opu.len() {
                    assert(self.popped_urls@[i] == opu[i]);
                    assert(forall|k: int| 0 <= k < opu.len() ==> ov.contains(#[trigger] opu[k]));
                } else {
                    assert(self.popped_urls@[i] == e.url@);
                    assert(ov.contains(pend0[best as int]));
                }
            }
            assert forall|i: int, j: int|
                0 <= i < j < self.popped_urls@.len() implies self.popped_urls@[i]
                != self.popped_urls@[j] by {
                if j == opu.len() {
                    assert(self.popped_urls@[i] == opu[i]);
                    assert(self.popped_urls@[j] == e.url@);
                    assert(!opu.contains(pend0[best as int]));
                    assert(opu.contains(opu[i]));
                }
            }
        }
        Some(e)
    }

    /// How many URLs have been accepted.
    pub fn visited_size(&self) -> (r: usize)
        ensures
            r == self.visited@.len(),
    {
        self.visited.len()
    }

    /// How many URLs are pending.
    pub fn remaining(&self) -> (r: usize)
        ensures
            r == self.entries@.len(),
    {
        self.entries.len()
    }
}

/// The frontier never hands the same URL out twice: the handed-out URLs of
/// a well-formed frontier are pairwise distinct.
pub proof fn lemma_frontier_no_repeats(f: Frontier)
    requires
        f.well_formed(),
    ensures
        forall|i: int, j: int|
            0 <= i < j < f.popped_urls@.len() ==> f.popped_urls@[i] != f.popped_urls@[j],
{
}

/// The frontier respects its limits: every pending entry of a well-formed
/// frontier sits within the depth limit, and no more than the page limit
/// has been handed out.
pub proof fn lemma_frontier_limits(f: Frontier)
    requires
        f.well_formed(),
    ensures
        forall|i: int| 0 <= i < f.entries@.len() ==> #[trigger] f.entries@[i].depth <= f.max_depth,
        f.popped <= f.max_pages,
{
}

} // verus!
