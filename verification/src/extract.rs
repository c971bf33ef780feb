//! HTML extraction: the scraper crate reads the document behind trusted
//! declarations whose results are named, and the verified code on top
//! trims, splits, counts and classifies what was read into a page record's
//! fields.

use sha2::Digest;
use vstd::prelude::*;
use vstd::string::StringSliceAdditionalSpecFns;

use crate::text::{
    chars_of, collapse_ws, collapse_ws_spec, count_words_chars, string_from_chars, trim_chars,
    trim_spec, word_count_spec, split_char, split_char_spec, starts_with, starts_with_spec,
    subrange_chars,
};
use crate::urls::{crawlable_url_spec, is_crawlable_url, resolve_url, url_host_of, url_joins,
    url_join_of, url_parses};

verus! {

/// The text of the first `title` element of the document `h`, as scraper
/// collects it.  Names `scraper::Html::parse_document` with the selector
/// `title`.
pub uninterp spec fn html_title_of(h: Seq<char>) -> Seq<char>;

/// The `content` attribute of the first `meta[name=...]` element of `h`.
/// Names `scraper::Html::parse_document` with a `meta[name=...]` selector
/// and the `content` attribute.
pub uninterp spec fn html_meta_content_of(h: Seq<char>, name: Seq<char>) -> Seq<char>;

/// The `href` attribute of the first `link[rel=canonical]` element of `h`.
/// Names `scraper::Html::parse_document` with that selector and attribute.
pub uninterp spec fn html_canonical_of(h: Seq<char>) -> Seq<char>;

/// The `lang` attribute of the `html` element of `h`, where it has one.
/// Names `scraper::Html::parse_document` with the `html` selector and the
/// `lang` attribute.
pub uninterp spec fn html_lang_of(h: Seq<char>) -> Option<Seq<char>>;

/// The collected texts of the elements of `h` matching the tag `tag`, in
/// document order.  Names `scraper::Html::parse_document` with that tag as
/// selector.
pub uninterp spec fn html_headings_of(h: Seq<char>, tag: Seq<char>) -> Seq<Seq<char>>;

/// The text nodes under the `body` element of `h`, joined by single
/// spaces.  Names `scraper::Html::parse_document` with the `body` selector.
pub uninterp spec fn html_body_text_of(h: Seq<char>) -> Seq<char>;

/// The number of `img` elements of `h`.  Names
/// `scraper::Html::parse_document` with the `img` selector.
pub uninterp spec fn html_image_count_of(h: Seq<char>) -> nat;

/// The anchors of `h`, in document order: for each `a` element with an
/// `href`, its href, its collected text, its `rel` attribute (empty where
/// absent), and the text-node children of its parent, each followed by one
/// space.  Names `scraper::Html::parse_document` with the `a[href]`
/// selector.
pub uninterp spec fn html_anchors_of(h: Seq<char>) -> Seq<
    (Seq<char>, Seq<char>, Seq<char>, Seq<char>),
>;

/// The SHA-256 digest of a byte string.  Names `sha2::Sha256::digest`.
pub uninterp spec fn sha256_of(b: Seq<u8>) -> Seq<u8>;

/// One hyperlink as it stands in the document.
pub struct Anchor {
    /// The raw `href` attribute.
    pub href: String,
    /// The collected text of the anchor element.
    pub text: String,
    /// The `rel` attribute, empty where absent.
    pub rel: String,
    /// The text-node children of the anchor's parent, each followed by one
    /// space.
    pub parent_text: String,
}

impl Anchor {
    /// The anchor's four strings.
    pub open spec fn view_tuple(&self) -> (Seq<char>, Seq<char>, Seq<char>, Seq<char>) {
        (self.href@, self.text@, self.rel@, self.parent_text@)
    }
}

/// Relies on `scraper::Html::parse_document` and `ElementRef::text` with
/// the `title` selector: the collected text of the first title element.
#[verifier::external_body]
pub(crate) fn html_title_raw(html: &str) -> (r: String)
    ensures
        r@ == html_title_of(html@),
{
    let doc = scraper::Html::parse_document(html);
    let sel = scraper::Selector::parse("title").unwrap();
    match doc.select(&sel).next() {
        Some(el) => el.text().collect::<String>(),
        None => String::new(),
    }
}

/// Relies on `scraper::Html::parse_document` and `Element::attr` with a
/// `meta[name=...]` selector: the `content` attribute of the first match.
#[verifier::external_body]
pub(crate) fn html_meta_content(html: &str, name: &str) -> (r: String)
    ensures
        r@ == html_meta_content_of(html@, name@),
{
    let doc = scraper::Html::parse_document(html);
    let sel = match scraper::Selector::parse(&format!("meta[name='{}']", name)) {
        Ok(s) => s,
        Err(_) => return String::new(),
    };
    doc.select(&sel).next().and_then(|el| el.value().attr("content")).unwrap_or("").to_string()
}

/// Relies on `scraper::Html::parse_document` and `Element::attr` with the
/// `link[rel='canonical']` selector: the `href` attribute of the first
/// match.
#[verifier::external_body]
pub(crate) fn html_canonical_raw(html: &str) -> (r: String)
    ensures
        r@ == html_canonical_of(html@),
{
    let doc = scraper::Html::parse_document(html);
    let sel = scraper::Selector::parse("link[rel='canonical']").unwrap();
    doc.select(&sel).next().and_then(|el| el.value().attr("href")).unwrap_or("").to_string()
}

/// Relies on `scraper::Html::parse_document` and `Element::attr` with the
/// `html` selector: the `lang` attribute, where the element carries one.
#[verifier::external_body]
pub(crate) fn html_lang(html: &str) -> (r: Option<String>)
    ensures
        r matches Some(l) ==> html_lang_of(html@) == Some(l@),
        r is None ==> html_lang_of(html@) is None,
{
    let doc = scraper::Html::parse_document(html);
    let sel = scraper::Selector::parse("html").unwrap();
    doc.select(&sel).next().and_then(|el| el.value().attr("lang")).map(|s| s.to_string())
}

/// Relies on `scraper::Html::parse_document` and `ElementRef::text` with a
/// plain tag selector: the collected text of each match, in order.
#[verifier::external_body]
pub(crate) fn html_headings(html: &str, tag: &str) -> (r: Vec<String>)
    ensures
        r@.map_values(|s: String| s@) == html_headings_of(html@, tag@),
{
    let doc = scraper::Html::parse_document(html);
    let sel = match scraper::Selector::parse(tag) {
        Ok(s) => s,
        Err(_) => return Vec::new(),
    };
    doc.select(&sel).map(|el| el.text().collect::<String>()).collect()
}

/// Relies on `scraper::Html::parse_document` and `ElementRef::text` with
/// the `body` selector: the body's text nodes joined by single spaces.
#[verifier::external_body]
pub(crate) fn html_body_text(html: &str) -> (r: String)
    ensures
        r@ == html_body_text_of(html@),
{
    let doc = scraper::Html::parse_document(html);
    let sel = scraper::Selector::parse("body").unwrap();
    match doc.select(&sel).next() {
        Some(body) => body.text().collect::<Vec<_>>().join(" "),
        None => String::new(),
    }
}

/// Relies on `scraper::Html::parse_document` with the `img` selector: how
/// many elements match.
#[verifier::external_body]
pub(crate) fn html_image_count(html: &str) -> (r: usize)
    ensures
        r as nat == html_image_count_of(html@),
{
    let doc = scraper::Html::parse_document(html);
    let sel = scraper::Selector::parse("img").unwrap();
    doc.select(&sel).count()
}

/// Relies on `scraper::Html::parse_document`, `Element::attr`,
/// `ElementRef::text` and the node tree accessors `parent`, `children` and
/// `as_text`, with the `a[href]` selector: every anchor with its href,
/// text, rel and its parent's text-node children.
#[verifier::external_body]
pub(crate) fn html_anchors(html: &str) -> (r: Vec<Anchor>)
    ensures
        r@.map_values(|a: Anchor| a.view_tuple()) == html_anchors_of(html@),
{
    let doc = scraper::Html::parse_document(html);
    let sel = scraper::Selector::parse("a[href]").unwrap();
    doc.select(&sel).filter_map(|el| el.value().attr("href").map(|href| Anchor {
        href: href.to_string(),
        text: el.text().collect::<String>(),
        rel: el.value().attr("rel").unwrap_or("").to_string(),
        parent_text: el.parent().map(|p| p.children().filter_map(|c|
            c.value().as_text().map(|t| format!("{} ", &**t))).collect::<String>()).unwrap_or_default(),
    })).collect()
}

/// Relies on `sha2::Sha256::digest`: the 32-byte SHA-256 digest of the
/// string's bytes.
#[verifier::external_body]
pub(crate) fn sha256_bytes(s: &str) -> (r: Vec<u8>)
    ensures
        r@ == sha256_of(s.spec_bytes()),
        r@.len() == 32,
{
    sha2::Sha256::digest(s.as_bytes()).to_vec()
}

/// The lower-case hex digit for `d < 16`.
pub open spec fn hex_lower_digit(d: u8) -> char {
    if d < 10 {
        ((0x30 + d) as u8) as char
    } else {
        ((0x57 + d) as u8) as char
    }
}

/// The lower-case hex rendering of a byte string, two digits per byte.
pub open spec fn hex_lower_spec(b: Seq<u8>) -> Seq<char>
    decreases b.len(),
{
    if b.len() == 0 {
        Seq::empty()
    } else {
        hex_lower_spec(b.drop_last()) + seq![
            hex_lower_digit(b.last() / 16),
            hex_lower_digit(b.last() % 16),
        ]
    }
}

/// The lower-case hex rendering of `b`.
pub fn hex_lower(b: &Vec<u8>) -> (r: Vec<char>)
    ensures
        r@ == hex_lower_spec(b@),
        r@.len() == 2 * b@.len(),
{
    let mut r: Vec<char> = Vec::new();
    let mut i: usize = 0;
    proof {
        assert(b@.take(0) =~= Seq::<u8>::empty());
    }
    while i < b.len()
        invariant
            i <= b@.len(),
            r@ == hex_lower_spec(b@.take(i as int)),
            r@.len() == 2 * i,
        decreases b@.len() - i,
    {
        let x = b[i];
        let hi = x / 16;
        let lo = x % 16;
        let hc: char = if hi < 10 {
            ((0x30 + hi) as u8) as char
        } else {
            ((0x57 + hi) as u8) as char
        };
        let lc: char = if lo < 10 {
            ((0x30 + lo) as u8) as char
        } else {
            ((0x57 + lo) as u8) as char
        };
        r.push(hc);
        r.push(lc);
        proof {
            assert(b@.take(i + 1 as int).drop_last() =~= b@.take(i as int));
            assert(b@.take(i + 1 as int).last() == b@[i as int]);
            assert(r@ =~= hex_lower_spec(b@.take(i + 1 as int)));
        }
        i = i + 1;
    }
    proof {
        assert(b@.take(b@.len() as int) =~= b@);
    }
    r
}

/// The content hash of a page body: the lower-case hex SHA-256 of its
/// bytes, 64 characters.
pub fn calculate_content_hash(body: &str) -> (r: String)
    ensures
        r@ == hex_lower_spec(sha256_of(body.spec_bytes())),
        r@.len() == 64,
{
    let digest = sha256_bytes(body);
    let hex = hex_lower(&digest);
    string_from_chars(&hex)
}

/// The page title: the first title element's text, trimmed.
pub fn extract_title(html: &str) -> (r: String)
    ensures
        r@ == trim_spec(html_title_of(html@)),
{
    let raw = html_title_raw(html);
    let c = chars_of(raw.as_str());
    let t = trim_chars(&c);
    string_from_chars(&t)
}

/// The meta description: the `content` of `meta[name=description]`,
/// trimmed.
pub fn extract_meta_description(html: &str) -> (r: String)
    ensures
        r@ == trim_spec(html_meta_content_of(html@, "description"@)),
{
    let raw = html_meta_content(html, "description");
    let c = chars_of(raw.as_str());
    let t = trim_chars(&c);
    string_from_chars(&t)
}

/// The robots directive of the page: the `content` of `meta[name=robots]`.
pub fn extract_robots_meta(html: &str) -> (r: String)
    ensures
        r@ == html_meta_content_of(html@, "robots"@),
{
    html_meta_content(html, "robots")
}

/// The canonical URL: the `href` of `link[rel=canonical]`.
pub fn extract_canonical_url(html: &str) -> (r: String)
    ensures
        r@ == html_canonical_of(html@),
{
    html_canonical_raw(html)
}

/// The language a page declares, or `en` where it declares none.
pub open spec fn language_spec(h: Seq<char>) -> Seq<char> {
    match html_lang_of(h) {
        Some(l) => l,
        None => "en"@,
    }
}

/// The page language: the `lang` attribute of `html`, or `en`.
pub fn detect_language(html: &str) -> (r: String)
    ensures
        r@ == language_spec(html@),
{
    match html_lang(html) {
        Some(l) => l,
        None => {
            let mut s = String::new();
            s.append("en");
            s
        },
    }
}

/// The entries of `parts`, each trimmed, the empty ones dropped.
pub open spec fn trimmed_nonempty_rec(parts: Seq<Seq<char>>, n: int) -> Seq<Seq<char>>
    recommends
        n <= parts.len(),
    decreases n,
{
    if n <= 0 {
        Seq::empty()
    } else {
        let rest = trimmed_nonempty_rec(parts, n - 1);
        if trim_spec(parts[n - 1]).len() > 0 {
            rest.push(trim_spec(parts[n - 1]))
        } else {
            rest
        }
    }
}

/// The entries of `parts`, trimmed and non-empty, in order.
pub open spec fn trimmed_nonempty(parts: Seq<Seq<char>>) -> Seq<Seq<char>> {
    trimmed_nonempty_rec(parts, parts.len() as int)
}

/// The meta keywords of a page: the comma-separated entries of
/// `meta[name=keywords]`, trimmed, empties dropped.
pub open spec fn keywords_spec(h: Seq<char>) -> Seq<Seq<char>> {
    trimmed_nonempty(split_char_spec(html_meta_content_of(h, "keywords"@), ','))
}

/// Each of `parts`, trimmed, the empty ones dropped.
fn trim_parts(parts: &Vec<Vec<char>>) -> (r: Vec<String>)
    ensures
        r@.map_values(|s: String| s@) == trimmed_nonempty(parts.deep_view()),
{
    let mut r: Vec<String> = Vec::new();
    let mut i: usize = 0;
    assert(r@.map_values(|s: String| s@) =~= Seq::<Seq<char>>::empty());
    while i < parts.len()
        invariant
            i <= parts@.len(),
            parts@.len() == parts.deep_view().len(),
            r@.map_values(|s: String| s@) == trimmed_nonempty_rec(parts.deep_view(), i as int),
        decreases parts@.len() - i,
    {
        let ghost acc0 = r@.map_values(|s: String| s@);
        proof {
            assert(parts@[i as int]@ == parts.deep_view()[i as int]);
        }
        let t = trim_chars(&parts[i]);
        if t.len() > 0 {
            r.push(string_from_chars(&t));
            proof {
                assert(r@.map_values(|s: String| s@) =~= acc0.push(
                    trim_spec(parts.deep_view()[i as int]),
                ));
            }
        }
        i = i + 1;
    }
    r
}

/// The meta keywords: the comma-separated entries of
/// `meta[name=keywords]`, trimmed, empties dropped, in order.
pub fn extract_meta_keywords(html: &str) -> (r: Vec<String>)
    ensures
        r@.map_values(|s: String| s@) == keywords_spec(html@),
{
    let raw = html_meta_content(html, "keywords");
    let c = chars_of(raw.as_str());
    let parts = split_char(&c, ',');
    trim_parts(&parts)
}

/// The headings under `tag`: each matching element's text, trimmed,
/// empties dropped, in document order.
pub fn extract_headings(html: &str, tag: &str) -> (r: Vec<String>)
    ensures
        r@.map_values(|s: String| s@) == trimmed_nonempty(html_headings_of(html@, tag@)),
{
    let raw = html_headings(html, tag);
    let mut cs: Vec<Vec<char>> = Vec::new();
    let mut i: usize = 0;
    assert(cs.deep_view() =~~= Seq::<Seq<char>>::empty());
    while i < raw.len()
        invariant
            i <= raw@.len(),
            cs.deep_view() == raw@.map_values(|s: String| s@).take(i as int),
        decreases raw@.len() - i,
    {
        let ghost acc0 = cs.deep_view();
        cs.push(chars_of(raw[i].as_str()));
        proof {
            assert(cs.deep_view() =~~= acc0.push(raw@[i as int]@));
            assert(raw@.map_values(|s: String| s@).take(i + 1 as int) =~= acc0.push(
                raw@[i as int]@,
            ));
        }
        i = i + 1;
    }
    proof {
        assert(raw@.map_values(|s: String| s@).take(raw@.len() as int) =~= raw@.map_values(
            |s: String| s@,
        ));
    }
    trim_parts(&cs)
}

/// The trimmed, non-empty `h1` texts of the page, in order.
pub fn extract_h1_tags(html: &str) -> (r: Vec<String>)
    ensures
        r@.map_values(|s: String| s@) == trimmed_nonempty(html_headings_of(html@, "h1"@)),
{
    extract_headings(html, "h1")
}

/// The trimmed, non-empty `h2` texts of the page, in order.
pub fn extract_h2_tags(html: &str) -> (r: Vec<String>)
    ensures
        r@.map_values(|s: String| s@) == trimmed_nonempty(html_headings_of(html@, "h2"@)),
{
    extract_headings(html, "h2")
}

/// The body text of the page, whitespace-collapsed.
pub fn extract_text_content(html: &str) -> (r: String)
    ensures
        r@ == collapse_ws_spec(html_body_text_of(html@)),
{
    let raw = html_body_text(html);
    let c = chars_of(raw.as_str());
    let collapsed = collapse_ws(&c);
    string_from_chars(&collapsed)
}

/// How many whitespace-separated words `text` has.
pub fn count_words(text: &str) -> (r: usize)
    ensures
        r == word_count_spec(text@),
{
    let c = chars_of(text);
    count_words_chars(&c)
}

/// `s` with every leading repetition of `p` removed.
pub open spec fn strip_prefix_rep(s: Seq<char>, p: Seq<char>) -> Seq<char>
    decreases s.len(),
{
    if p.len() > 0 && starts_with_spec(s, p) {
        strip_prefix_rep(s.skip(p.len() as int), p)
    } else {
        s
    }
}

/// The charset named by the segments of a `content-type` header value:
/// the first `;`-separated segment whose trimmed form starts with
/// `charset=`, with that lead stripped; `utf-8` where none does.
pub open spec fn charset_rec(parts: Seq<Seq<char>>, i: int) -> Seq<char>
    recommends
        0 <= i <= parts.len(),
    decreases parts.len() - i,
{
    if i < 0 || i >= parts.len() {
        "utf-8"@
    } else if starts_with_spec(trim_spec(parts[i]), "charset="@) {
        strip_prefix_rep(trim_spec(parts[i]), "charset="@)
    } else {
        charset_rec(parts, i + 1)
    }
}

/// The charset of a `content-type` header value, `utf-8` where it names
/// none.
pub open spec fn charset_of_header_spec(ct: Seq<char>) -> Seq<char> {
    charset_rec(split_char_spec(ct, ';'), 0)
}

/// `s` with every leading repetition of `p` removed.
fn strip_prefix_all(s: &Vec<char>, p: &Vec<char>) -> (r: Vec<char>)
    requires
        p@.len() > 0,
    ensures
        r@ == strip_prefix_rep(s@, p@),
    decreases s@.len(),
{
    if starts_with(s, p) {
        let rest = subrange_chars(s, p.len(), s.len());
        proof {
            assert(rest@ =~= s@.skip(p@.len() as int));
        }
        strip_prefix_all(&rest, p)
    } else {
        let r = subrange_chars(s, 0, s.len());
        proof {
            assert(r@ =~= s@);
        }
        r
    }
}

/// The charset of a `content-type` response header, or `utf-8`.
pub fn detect_charset_from_headers(content_type: &str) -> (r: String)
    ensures
        r@ == charset_of_header_spec(content_type@),
{
    let c = chars_of(content_type);
    let parts = split_char(&c, ';');
    let prefix = chars_of("charset=");
    proof {
        reveal_strlit("charset=");
    }
    let mut i: usize = 0;
    while i < parts.len()
        invariant
            prefix@ == "charset="@,
            prefix@.len() > 0,
            i <= parts@.len(),
            parts@.len() == parts.deep_view().len(),
            charset_of_header_spec(content_type@) == charset_rec(parts.deep_view(), i as int),
        decreases parts@.len() - i,
    {
        proof {
            assert(parts@[i as int]@ == parts.deep_view()[i as int]);
        }
        let t = trim_chars(&parts[i]);
        if starts_with(&t, &prefix) {
            let stripped = strip_prefix_all(&t, &prefix);
            return string_from_chars(&stripped);
        }
        i = i + 1;
    }
    let mut s = String::new();
    s.append("utf-8");
    s
}

/// The crawl-eligible links of a page, resolved: for each anchor of `h`,
/// in order, its href resolved against `base` where resolution succeeds
/// and the result is a crawlable URL.
pub open spec fn page_links_rec(
    anchors: Seq<(Seq<char>, Seq<char>, Seq<char>, Seq<char>)>,
    base: Seq<char>,
    i: int,
) -> Seq<Seq<char>>
    recommends
        0 <= i <= anchors.len(),
    decreases anchors.len() - i,
{
    if i < 0 || i >= anchors.len() {
        Seq::empty()
    } else {
        let rest = page_links_rec(anchors, base, i + 1);
        if url_joins(base, anchors[i].0) && crawlable_url_spec(url_join_of(base, anchors[i].0)) {
            seq![url_join_of(base, anchors[i].0)] + rest
        } else {
            rest
        }
    }
}

/// The crawl-eligible links of the document `h` against the base `base`.
pub open spec fn page_links_spec(h: Seq<char>, base: Seq<char>) -> Seq<Seq<char>> {
    page_links_rec(html_anchors_of(h), base, 0)
}

/// Every anchor href of `html`, resolved against `base_url` and kept where
/// it is a crawlable URL, in document order.
pub fn extract_links(html: &str, base_url: &str) -> (r: Vec<String>)
    ensures
        r@.map_values(|s: String| s@) == page_links_spec(html@, base_url@),
{
    let ghost ga = html_anchors_of(html@);
    let anchors = html_anchors(html);
    let mut out: Vec<String> = Vec::new();
    let mut j: usize = 0;
    while j < anchors.len()
        invariant
            anchors@.map_values(|a: Anchor| a.view_tuple()) == ga,
            j <= anchors@.len(),
            out@.map_values(|s: String| s@) =~= page_links_head(ga, base_url@, j as int),
        decreases anchors@.len() - j,
    {
        let ghost acc0 = out@.map_values(|s: String| s@);
        proof {
            assert(anchors@[j as int].view_tuple() == ga[j as int]);
        }
        match resolve_url(base_url, anchors[j].href.as_str()) {
            Some(u) => {
                if is_crawlable_url(u.as_str()) {
                    out.push(u);
                    proof {
                        assert(out@.map_values(|s: String| s@) =~= acc0.push(
                            url_join_of(base_url@, ga[j as int].0),
                        ));
                    }
                }
            },
            None => {},
        }
        proof {
            lemma_page_links_head_step(ga, base_url@, j as int);
        }
        j = j + 1;
    }
    proof {
        lemma_page_links_head_full(ga, base_url@, ga.len() as int);
        assert(out@.map_values(|s: String| s@) =~= page_links_spec(html@, base_url@));
    }
    out
}

/// The crawl-eligible links among the first `i` anchors, in order.
pub open spec fn page_links_head(
    anchors: Seq<(Seq<char>, Seq<char>, Seq<char>, Seq<char>)>,
    base: Seq<char>,
    i: int,
) -> Seq<Seq<char>>
    recommends
        0 <= i <= anchors.len(),
    decreases i,
{
    if i <= 0 {
        Seq::empty()
    } else {
        let rest = page_links_head(anchors, base, i - 1);
        if url_joins(base, anchors[i - 1].0) && crawlable_url_spec(
            url_join_of(base, anchors[i - 1].0),
        ) {
            rest.push(url_join_of(base, anchors[i - 1].0))
        } else {
            rest
        }
    }
}

/// Extending the head by one anchor appends that anchor's link, if any.
proof fn lemma_page_links_head_step(
    anchors: Seq<(Seq<char>, Seq<char>, Seq<char>, Seq<char>)>,
    base: Seq<char>,
    i: int,
)
    requires
        0 <= i < anchors.len(),
    ensures
        page_links_head(anchors, base, i + 1) == if url_joins(base, anchors[i].0)
            && crawlable_url_spec(url_join_of(base, anchors[i].0)) {
            page_links_head(anchors, base, i).push(url_join_of(base, anchors[i].0))
        } else {
            page_links_head(anchors, base, i)
        },
{
}

/// Over the whole anchor list, the head-first and tail-first readings of
/// the eligible links agree.
proof fn lemma_page_links_head_full(
    anchors: Seq<(Seq<char>, Seq<char>, Seq<char>, Seq<char>)>,
    base: Seq<char>,
    n: int,
)
    requires
        0 <= n <= anchors.len(),
    ensures
        page_links_head(anchors, base, n) + page_links_rec(anchors, base, n) == page_links_rec(
            anchors,
            base,
            0,
        ),
    decreases n,
{
    if n == 0 {
        assert(page_links_head(anchors, base, 0) + page_links_rec(anchors, base, 0)
            =~= page_links_rec(anchors, base, 0));
    } else {
        lemma_page_links_head_full(anchors, base, n - 1);
        assert(page_links_head(anchors, base, n - 1) + page_links_rec(anchors, base, n - 1)
            == page_links_rec(anchors, base, 0));
        if url_joins(base, anchors[n - 1].0) && crawlable_url_spec(
            url_join_of(base, anchors[n - 1].0),
        ) {
            assert(page_links_head(anchors, base, n) + page_links_rec(anchors, base, n)
                =~= page_links_head(anchors, base, n - 1) + page_links_rec(anchors, base, n - 1));
        } else {
            assert(page_links_head(anchors, base, n) + page_links_rec(anchors, base, n)
                =~= page_links_head(anchors, base, n - 1) + page_links_rec(anchors, base, n - 1));
        }
    }
}

/// How many of `links` name the same host as `base`: 0 where `base` does
/// not parse.
pub open spec fn internal_count_rec(links: Seq<Seq<char>>, base: Seq<char>, n: int) -> nat
    recommends
        n <= links.len(),
    decreases n,
{
    if n <= 0 {
        0
    } else {
        internal_count_rec(links, base, n - 1) + if url_parses(links[n - 1]) && url_host_of(
            links[n - 1],
        ) == url_host_of(base) {
            1nat
        } else {
            0nat
        }
    }
}

/// How many of `links` are internal to `base`'s host.
pub open spec fn internal_links_count_spec(links: Seq<Seq<char>>, base: Seq<char>) -> nat {
    if url_parses(base) {
        internal_count_rec(links, base, links.len() as int)
    } else {
        0
    }
}

/// How many of `links` share `base_url`'s host.
pub fn count_internal_links(links: &Vec<String>, base_url: &str) -> (r: usize)
    ensures
        r == internal_links_count_spec(links@.map_values(|s: String| s@), base_url@),
{
    let ghost ls = links@.map_values(|s: String| s@);
    match crate::urls::parse_url(base_url) {
        None => 0,
        Some(_) => {
            let mut n: usize = 0;
            let mut i: usize = 0;
            while i < links.len()
                invariant
                    ls == links@.map_values(|s: String| s@),
                    url_parses(base_url@),
                    i <= ls.len(),
                    n == internal_count_rec(ls, base_url@, i as int),
                    n <= i,
                decreases ls.len() - i,
            {
                proof {
                    assert(links@[i as int]@ == ls[i as int]);
                }
                if crate::urls::same_host(links[i].as_str(), base_url) {
                    n = n + 1;
                }
                i = i + 1;
            }
            n
        },
    }
}

/// Content hashing is deterministic: equal bodies always carry equal
/// hashes.
pub proof fn lemma_content_hash_deterministic(a: Seq<u8>, b: Seq<u8>)
    requires
        a == b,
    ensures
        hex_lower_spec(sha256_of(a)) == hex_lower_spec(sha256_of(b)),
{
}

} // verus!
