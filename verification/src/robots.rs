//! robots.txt: parsing the directive lines into per-agent disallow rules,
//! answering whether a path may be fetched, and the per-origin cache of
//! parsed files.

use vstd::prelude::*;

use crate::text::{
    chars_of, eq_chars, split_char, split_char_spec, split_char_rec, starts_with, starts_with_ci,
    starts_with_ci_spec, starts_with_spec, string_from_chars, trim_chars, trim_spec,
};

verus! {

/// One disallow rule: the user agent it addresses and the path prefix it
/// forbids.
pub struct RobotsRule {
    /// The user agent the rule was written under, `*` for everyone.
    pub user_agent: String,
    /// The forbidden path prefix.
    pub path: String,
}

/// A parsed robots.txt file: its disallow rules, in order of appearance.
pub struct RobotsTxt {
    /// The disallow rules, each under the agent that was current when it
    /// appeared.
    pub rules: Vec<RobotsRule>,
}

/// The part of `line` between its first and second `:`, or empty where the
/// line has no `:`.
pub open spec fn colon_segment_spec(line: Seq<char>) -> Seq<char> {
    let pieces = split_char_spec(line, ':');
    if pieces.len() >= 2 {
        pieces[1]
    } else {
        Seq::empty()
    }
}

/// The (agent, path) rules of `lines[i..]`, where `cur` is the agent in
/// force and `acc` the rules already read.  Blank lines, comments and
/// unknown directives are passed over; a `user-agent:` line changes the
/// agent; a `disallow:` line with a non-empty path adds a rule.
pub open spec fn robots_rules_rec(
    lines: Seq<Seq<char>>,
    i: int,
    cur: Seq<char>,
    acc: Seq<(Seq<char>, Seq<char>)>,
) -> Seq<(Seq<char>, Seq<char>)>
    recommends
        0 <= i <= lines.len(),
    decreases lines.len() - i,
{
    if i < 0 || i >= lines.len() {
        acc
    } else {
        let t = trim_spec(lines[i]);
        if t.len() == 0 || t[0] == '#' {
            robots_rules_rec(lines, i + 1, cur, acc)
        } else if starts_with_ci_spec(t, "user-agent:"@) {
            robots_rules_rec(lines, i + 1, trim_spec(colon_segment_spec(t)), acc)
        } else if starts_with_ci_spec(t, "disallow:"@) {
            let p = trim_spec(colon_segment_spec(t));
            if p.len() > 0 {
                robots_rules_rec(lines, i + 1, cur, acc.push((cur, p)))
            } else {
                robots_rules_rec(lines, i + 1, cur, acc)
            }
        } else {
            robots_rules_rec(lines, i + 1, cur, acc)
        }
    }
}

/// The rules of a whole robots.txt text: its lines read in order, starting
/// under the agent `*`.
pub open spec fn robots_rules_spec(content: Seq<char>) -> Seq<(Seq<char>, Seq<char>)> {
    robots_rules_rec(split_char_spec(content, '\n'), 0, "*"@, Seq::empty())
}

/// Whether some rule addressed to `ua` or to `*` forbids `path`: a path is
/// forbidden when it starts with the rule's prefix.
pub open spec fn robots_disallows(
    rules: Seq<(Seq<char>, Seq<char>)>,
    ua: Seq<char>,
    path: Seq<char>,
) -> bool {
    exists|i: int|
        0 <= i < rules.len() && (rules[i].0 == ua || rules[i].0 == "*"@) && starts_with_spec(
            path,
            rules[i].1,
        )
}

impl RobotsTxt {
    /// The rules as (agent, path) pairs.
    pub open spec fn rules_model(&self) -> Seq<(Seq<char>, Seq<char>)> {
        self.rules@.map_values(|r: RobotsRule| (r.user_agent@, r.path@))
    }

    /// Parses a robots.txt text, line by line: comments and blank lines are
    /// ignored, `user-agent:` switches the agent, `disallow:` records a
    /// forbidden prefix under it, and anything else is ignored.
    pub fn parse(content: &str) -> (r: RobotsTxt)
        ensures
            r.rules_model() == robots_rules_spec(content@),
    {
        let cs = chars_of(content);
        let lines = split_char(&cs, '\n');
        let ghost glines = lines.deep_view();
        let mut cur: Vec<char> = chars_of("*");
        let mut rules: Vec<RobotsRule> = Vec::new();
        let ua_prefix = chars_of("user-agent:");
        let dis_prefix = chars_of("disallow:");
        let mut i: usize = 0;
        assert(rules@.map_values(|r: RobotsRule| (r.user_agent@, r.path@)) =~= Seq::<(
            Seq<char>,
            Seq<char>,
        )>::empty());
        while i < lines.len()
            invariant
                glines == lines.deep_view(),
                lines@.len() == glines.len(),
                ua_prefix@ == "user-agent:"@,
                dis_prefix@ == "disallow:"@,
                i <= glines.len(),
                robots_rules_spec(content@) == robots_rules_rec(
                    glines,
                    i as int,
                    cur@,
                    rules@.map_values(|r: RobotsRule| (r.user_agent@, r.path@)),
                ),
            decreases glines.len() - i,
        {
            let ghost racc = rules@.map_values(|r: RobotsRule| (r.user_agent@, r.path@));
            proof {
                assert(lines@[i as int]@ == glines[i as int]);
            }
            let t = trim_chars(&lines[i]);
            if t.len() == 0 || t[0] == '#' {
                // a blank line or a comment
            } else if starts_with_ci(&t, &ua_prefix) {
                let pieces = split_char(&t, ':');
                proof {
                    crate::text::lemma_split_char_rec_len(
                        t@,
                        ':',
                        0,
                        Seq::empty(),
                        Seq::empty(),
                    );
                    assert(pieces@.len() == pieces.deep_view().len());
                }
                if pieces.len() >= 2 {
                    proof {
                        assert(pieces@[1]@ == pieces.deep_view()[1]);
                    }
                    cur = trim_chars(&pieces[1]);
                } else {
                    cur = Vec::new();
                    assert(cur@ =~= trim_spec(colon_segment_spec(t@)));
                }
            } else if starts_with_ci(&t, &dis_prefix) {
                let pieces = split_char(&t, ':');
                proof {
                    crate::text::lemma_split_char_rec_len(
                        t@,
                        ':',
                        0,
                        Seq::empty(),
                        Seq::empty(),
                    );
                    assert(pieces@.len() == pieces.deep_view().len());
                }
                let p: Vec<char> = if pieces.len() >= 2 {
                    proof {
                        assert(pieces@[1]@ == pieces.deep_view()[1]);
                    }
                    trim_chars(&pieces[1])
                } else {
                    Vec::new()
                };
                assert(p@ == trim_spec(colon_segment_spec(t@)));
                if p.len() > 0 {
                    let rule = RobotsRule {
                        user_agent: string_from_chars(&cur),
                        path: string_from_chars(&p),
                    };
                    rules.push(rule);
                    proof {
                        assert(rules@.map_values(|r: RobotsRule| (r.user_agent@, r.path@))
                            =~= racc.push((cur@, p@)));
                    }
                }
            } else {
                // an unknown directive
            }
            i = i + 1;
        }
        RobotsTxt { rules }
    }

    /// Whether `user_agent` may fetch `path`: no rule addressed to it, nor
    /// to `*`, forbids a prefix of the path.
    pub fn can_crawl(&self, user_agent: &str, path: &str) -> (r: bool)
        ensures
            r == !robots_disallows(self.rules_model(), user_agent@, path@),
    {
        let ua = chars_of(user_agent);
        let star = chars_of("*");
        let p = chars_of(path);
        let mut i: usize = 0;
        while i < self.rules.len()
            invariant
                ua@ == user_agent@,
                star@ == "*"@,
                p@ == path@,
                i <= self.rules@.len(),
                self.rules_model().len() == self.rules@.len(),
                forall|j: int|
                    0 <= j < i ==> !((self.rules_model()[j].0 == user_agent@
                        || self.rules_model()[j].0 == "*"@) && starts_with_spec(
                        path@,
                        self.rules_model()[j].1,
                    )),
            decreases self.rules@.len() - i,
        {
            let agent = chars_of(self.rules[i].user_agent.as_str());
            let rule_path = chars_of(self.rules[i].path.as_str());
            proof {
                assert(self.rules_model()[i as int] == (self.rules@[i as int].user_agent@,
                self.rules@[i as int].path@));
            }
            if (eq_chars(&agent, &ua) || eq_chars(&agent, &star)) && starts_with(&p, &rule_path) {
                assert(robots_disallows(self.rules_model(), user_agent@, path@));
                return false;
            }
            i = i + 1;
        }
        true
    }
}

impl Default for RobotsTxt {
    /// The empty rule set: everything is allowed.
    fn default() -> (r: RobotsTxt)
        ensures
            r.rules_model().len() == 0,
    {
        let r = RobotsTxt { rules: Vec::new() };
        proof {
            assert(r.rules_model() =~= Seq::<(Seq<char>, Seq<char>)>::empty());
        }
        r
    }
}

/// A cache of parsed robots.txt files, one per robots URL.
pub struct RobotsCache {
    /// The robots URLs that have been looked up.
    pub keys: Vec<String>,
    /// The parsed file for each key, same order.
    pub entries: Vec<RobotsTxt>,
}

impl RobotsCache {
    /// The keys and entries line up and no key repeats.
    pub open spec fn well_formed(&self) -> bool {
        &&& self.keys@.len() == self.entries@.len()
        &&& forall|i: int, j: int|
            0 <= i < j < self.keys@.len() ==> self.keys@[i]@ != self.keys@[j]@
    }

    /// Whether `key` is cached.
    pub open spec fn spec_contains(&self, key: Seq<char>) -> bool {
        exists|i: int| 0 <= i < self.keys@.len() && self.keys@[i]@ == key
    }

    /// An empty cache.
    pub fn new() -> (r: RobotsCache)
        ensures
            r.well_formed(),
            r.keys@.len() == 0,
    {
        RobotsCache { keys: Vec::new(), entries: Vec::new() }
    }

    /// The cached entry for `key`, where there is one.
    pub fn get(&self, key: &str) -> (r: Option<&RobotsTxt>)
        requires
            self.well_formed(),
        ensures
            r is Some <==> self.spec_contains(key@),
            r matches Some(e) ==> exists|i: int|
                0 <= i < self.keys@.len() && self.keys@[i]@ == key@ && e == &self.entries@[i],
    {
        let k = chars_of(key);
        let mut i: usize = 0;
        while i < self.keys.len()
            invariant
                self.well_formed(),
                k@ == key@,
                i <= self.keys@.len(),
                forall|j: int| 0 <= j < i ==> self.keys@[j]@ != key@,
            decreases self.keys@.len() - i,
        {
            let cached = chars_of(self.keys[i].as_str());
            if eq_chars(&cached, &k) {
                return Some(&self.entries[i]);
            }
            i = i + 1;
        }
        None
    }

    /// Caches `robots` under `key`; a no-op where `key` is already cached,
    /// as concurrent single-flight lookups may race to fill it.
    pub fn insert(&mut self, key: String, robots: RobotsTxt)
        requires
            old(self).well_formed(),
        ensures
            final (self).well_formed(),
            final (self).spec_contains(key@),
            forall|k: Seq<char>| old(self).spec_contains(k) ==> final (self).spec_contains(k),
            old(self).spec_contains(key@) ==> {
                &&& final (self).keys@ == old(self).keys@
                &&& final (self).entries@ == old(self).entries@
            },
            !old(self).spec_contains(key@) ==> {
                &&& final (self).keys@.len() == old(self).keys@.len() + 1
                &&& final (self).keys@.last()@ == key@
                &&& final (self).entries@ == old(self).entries@.push(robots)
                &&& forall|j: int|
                    0 <= j < old(self).keys@.len() ==> final (self).keys@[j] == old(self).keys@[j]
            },
    {
        let k = chars_of(key.as_str());
        let mut i: usize = 0;
        while i < self.keys.len()
            invariant
                self.well_formed(),
                k@ == key@,
                i <= self.keys@.len(),
                forall|j: int| 0 <= j < i ==> self.keys@[j]@ != key@,
            decreases self.keys@.len() - i,
        {
            let cached = chars_of(self.keys[i].as_str());
            if eq_chars(&cached, &k) {
                return ;
            }
            i = i + 1;
        }
        let ghost okeys = self.keys@;
        self.keys.push(key);
        self.entries.push(robots);
        proof {
            assert(self.keys@[self.keys@.len() - 1]@ == key@);
            assert(forall|j: int| 0 <= j < okeys.len() ==> self.keys@[j] == okeys[j]);
        }
    }
}

} // verus!
