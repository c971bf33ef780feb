//! URL handling: parsing and resolution through the `url` crate behind
//! trusted declarations, and the crate's own verified rules on top of them —
//! which URLs are worth crawling, how a newly discovered URL is prioritized,
//! and how search-engine query URLs are put together.

use vstd::prelude::*;
use vstd::string::StringSliceAdditionalSpecFns;

use crate::text::{
    chars_of, contains_chars, contains_spec, decimal_spec, ends_with, ends_with_spec, eq_chars,
    split_char, split_char_spec, string_from_chars, vec_contains_str,
};

verus! {

/// Whether `s` parses as an absolute URL.  Names the success of
/// `url::Url::parse`.
pub uninterp spec fn url_parses(s: Seq<char>) -> bool;

/// The scheme of the URL `s`.  Names `url::Url::scheme` on the parsed URL.
pub uninterp spec fn url_scheme_of(s: Seq<char>) -> Seq<char>;

/// The host of the URL `s`, or empty where it has none.  Names
/// `url::Url::host_str` on the parsed URL.
pub uninterp spec fn url_host_of(s: Seq<char>) -> Seq<char>;

/// The path of the URL `s`.  Names `url::Url::path` on the parsed URL.
pub uninterp spec fn url_path_of(s: Seq<char>) -> Seq<char>;

/// The serialized origin (scheme, host, port) of the URL `s`.  Names
/// `url::Origin::unicode_serialization` on the parsed URL's origin.
pub uninterp spec fn url_origin_of(s: Seq<char>) -> Seq<char>;

/// The normalized serialization of the URL `s`.  Names the `Display`
/// rendering of the parsed URL.
pub uninterp spec fn url_normalized_of(s: Seq<char>) -> Seq<char>;

/// Whether resolving `href` against the base URL `base` succeeds.  Names the
/// success of `url::Url::parse(base)` followed by `Url::join(href)`.
pub uninterp spec fn url_joins(base: Seq<char>, href: Seq<char>) -> bool;

/// The serialization of `href` resolved against the base URL `base`.  Names
/// the result of `url::Url::join`.
pub uninterp spec fn url_join_of(base: Seq<char>, href: Seq<char>) -> Seq<char>;

/// The pieces of an absolute URL that this crate's rules read, as plain
/// strings.
pub struct UrlParts {
    /// The scheme, without the trailing `:`.
    pub scheme: String,
    /// The host, or empty for URLs without one.
    pub host: String,
    /// The path, beginning with `/` for URLs with a host.
    pub path: String,
    /// The serialized origin, `scheme://host[:port]`.
    pub origin: String,
    /// The whole URL, normalized.
    pub normalized: String,
}

/// Relies on `url::Url::parse` and the accessors `scheme`, `host_str`,
/// `path`, `origin` and the `Display` serialization: parsing fails exactly
/// where `Url::parse` errs, and each field carries the accessor's answer.
#[verifier::external_body]
pub(crate) fn parse_url(s: &str) -> (r: Option<UrlParts>)
    ensures
        r is Some <==> url_parses(s@),
        r matches Some(p) ==> p.scheme@ == url_scheme_of(s@) && p.host@ == url_host_of(s@)
            && p.path@ == url_path_of(s@) && p.origin@ == url_origin_of(s@) && p.normalized@
            == url_normalized_of(s@),
{
    match url::Url::parse(s) {
        Ok(u) => Some(
            UrlParts {
                scheme: u.scheme().to_string(),
                host: u.host_str().unwrap_or("").to_string(),
                path: u.path().to_string(),
                origin: u.origin().unicode_serialization(),
                normalized: u.to_string(),
            },
        ),
        Err(_) => None,
    }
}

/// Relies on `url::Url::parse` and `url::Url::join`: resolution of a
/// possibly-relative `href` against `base`, RFC 3986 style.
#[verifier::external_body]
pub(crate) fn resolve_url(base: &str, href: &str) -> (r: Option<String>)
    ensures
        r is Some <==> url_joins(base@, href@),
        r matches Some(u) ==> u@ == url_join_of(base@, href@),
{
    match url::Url::parse(base) {
        Ok(b) => match b.join(href) {
            Ok(u) => Some(u.to_string()),
            Err(_) => None,
        },
        Err(_) => None,
    }
}

/// The bytes kept verbatim by percent-encoding: ASCII alphanumerics and
/// `-`, `.`, `_`, `~`.
pub open spec fn is_unreserved_byte(b: u8) -> bool {
    (0x30 <= b <= 0x39) || (0x41 <= b <= 0x5a) || (0x61 <= b <= 0x7a) || b == 0x2d || b == 0x2e
        || b == 0x5f || b == 0x7e
}

/// The upper-case hexadecimal digit for `d < 16`.
pub open spec fn hex_digit_char(d: u8) -> char {
    if d < 10 {
        ((0x30 + d) as u8) as char
    } else {
        ((0x37 + d) as u8) as char
    }
}

/// Percent-encoding of a byte string: unreserved bytes stand as themselves,
/// every other byte becomes `%` and two upper-case hex digits.
pub open spec fn percent_encode_spec(b: Seq<u8>) -> Seq<char>
    decreases b.len(),
{
    if b.len() == 0 {
        Seq::empty()
    } else {
        let head: Seq<char> = if is_unreserved_byte(b[0]) {
            seq![b[0] as char]
        } else {
            seq!['%', hex_digit_char(b[0] / 16), hex_digit_char(b[0] % 16)]
        };
        head + percent_encode_spec(b.drop_first())
    }
}

/// Relies on `urlencoding::encode`: it keeps ASCII alphanumerics and
/// `-`, `.`, `_`, `~` and writes every other byte as `%` plus two upper-case
/// hex digits.
#[verifier::external_body]
pub(crate) fn percent_encode(s: &str) -> (r: String)
    ensures
        r@ == percent_encode_spec(s.spec_bytes()),
{
    urlencoding::encode(s).into_owned()
}

/// The file-name endings that the crawler skips: documents, archives, media
/// and asset files.
pub open spec fn is_blocked_extension(e: Seq<char>) -> bool {
    ||| e == "pdf"@
    ||| e == "doc"@
    ||| e == "docx"@
    ||| e == "xls"@
    ||| e == "xlsx"@
    ||| e == "ppt"@
    ||| e == "pptx"@
    ||| e == "zip"@
    ||| e == "rar"@
    ||| e == "7z"@
    ||| e == "tar"@
    ||| e == "gz"@
    ||| e == "bz2"@
    ||| e == "mp3"@
    ||| e == "mp4"@
    ||| e == "avi"@
    ||| e == "mov"@
    ||| e == "wmv"@
    ||| e == "flv"@
    ||| e == "jpg"@
    ||| e == "jpeg"@
    ||| e == "png"@
    ||| e == "gif"@
    ||| e == "bmp"@
    ||| e == "svg"@
    ||| e == "ico"@
    ||| e == "css"@
    ||| e == "js"@
    ||| e == "xml"@
    ||| e == "json"@
    ||| e == "csv"@
}

/// The last `/`-separated segment of a path.
pub open spec fn last_path_segment_spec(path: Seq<char>) -> Seq<char> {
    split_char_spec(path, '/').last()
}

/// Whether the last segment of `path` ends in a dot followed by one of the
/// blocked extensions.
pub open spec fn path_has_blocked_extension(path: Seq<char>) -> bool {
    exists|e: Seq<char>|
        is_blocked_extension(e) && ends_with_spec(
            last_path_segment_spec(path),
            seq!['.'] + e,
        )
}

/// Whether `s` is a URL the crawler will fetch: it parses, its scheme is
/// `http` or `https`, and its path does not name a blocked file type.
pub open spec fn crawlable_url_spec(s: Seq<char>) -> bool {
    &&& url_parses(s)
    &&& (url_scheme_of(s) == "http"@ || url_scheme_of(s) == "https"@)
    &&& !path_has_blocked_extension(url_path_of(s))
}

/// One blocked-extension trial: `last` ends with `"." + ext`.
fn ends_with_dot_ext(last: &Vec<char>, ext: &str) -> (r: bool)
    ensures
        r == ends_with_spec(last@, seq!['.'] + ext@),
{
    let mut pat: Vec<char> = Vec::new();
    pat.push('.');
    let e = chars_of(ext);
    let mut k: usize = 0;
    while k < e.len()
        invariant
            k <= e@.len(),
            pat@ == seq!['.'] + e@.take(k as int),
        decreases e@.len() - k,
    {
        pat.push(e[k]);
        assert(pat@ =~= seq!['.'] + e@.take(k + 1 as int));
        k = k + 1;
    }
    assert(pat@ =~= seq!['.'] + ext@);
    ends_with(last, &pat)
}

/// Whether the last segment of `path` names a blocked file type.
pub fn has_blocked_extension(path: &Vec<char>) -> (r: bool)
    ensures
        r == path_has_blocked_extension(path@),
{
    let segs = split_char(path, '/');
    proof {
        crate::text::lemma_split_char_rec_len(path@, '/', 0, Seq::empty(), Seq::empty());
        assert(segs.deep_view().len() > 0);
        assert(segs@.len() == segs.deep_view().len());
    }
    let last = &segs[segs.len() - 1];
    proof {
        assert(last@ == segs.deep_view()[segs.deep_view().len() - 1]);
        assert(last@ == last_path_segment_spec(path@));
    }
    let exts = [
        "pdf", "doc", "docx", "xls", "xlsx", "ppt", "pptx", "zip", "rar", "7z", "tar", "gz", "bz2",
        "mp3", "mp4", "avi", "mov", "wmv", "flv", "jpg", "jpeg", "png", "gif", "bmp", "svg", "ico",
        "css", "js", "xml", "json", "csv",
    ];
    let mut i: usize = 0;
    let mut found = false;
    while i < 31
        invariant
            i <= 31,
            exts@.len() == 31,
            forall|j: int| 0 <= j < 31 ==> is_blocked_extension(exts@[j]@),
            forall|e: Seq<char>|
                is_blocked_extension(e) ==> exists|j: int| 0 <= j < 31 && exts@[j]@ == e,
            found == exists|j: int|
                0 <= j < i && ends_with_spec(last@, seq!['.'] + exts@[j]@),
        decreases 31 - i,
    {
        if ends_with_dot_ext(last, exts[i]) {
            found = true;
        }
        i = i + 1;
    }
    proof {
        if found {
            assert(path_has_blocked_extension(path@));
        } else if path_has_blocked_extension(path@) {
            let e = choose|e: Seq<char>|
                is_blocked_extension(e) && ends_with_spec(
                    last_path_segment_spec(path@),
                    seq!['.'] + e,
                );
            let j = choose|j: int| 0 <= j < 31 && exts@[j]@ == e;
            assert(ends_with_spec(last@, seq!['.'] + exts@[j]@));
        }
    }
    found
}

/// Whether `url` is worth fetching: http(s) and not a blocked file type.
pub fn is_crawlable_url(url: &str) -> (r: bool)
    ensures
        r == crawlable_url_spec(url@),
{
    match parse_url(url) {
        None => false,
        Some(p) => {
            let sc = chars_of(p.scheme.as_str());
            let http = chars_of("http");
            let https = chars_of("https");
            if !eq_chars(&sc, &http) && !eq_chars(&sc, &https) {
                return false;
            }
            let path = chars_of(p.path.as_str());
            !has_blocked_extension(&path)
        },
    }
}

/// The host of `url`, where it parses.
pub fn extract_domain(url: &str) -> (r: Option<String>)
    ensures
        r is Some <==> url_parses(url@),
        r matches Some(h) ==> h@ == url_host_of(url@),
{
    match parse_url(url) {
        None => None,
        Some(p) => Some(p.host),
    }
}

/// Whether `a` and `b` both parse and name the same host.
pub fn same_host(a: &str, b: &str) -> (r: bool)
    ensures
        r == (url_parses(a@) && url_parses(b@) && url_host_of(a@) == url_host_of(b@)),
{
    match (parse_url(a), parse_url(b)) {
        (Some(pa), Some(pb)) => {
            let ha = chars_of(pa.host.as_str());
            let hb = chars_of(pb.host.as_str());
            eq_chars(&ha, &hb)
        },
        _ => false,
    }
}

/// The priority a newly discovered URL enters the frontier with: base 5,
/// plus 3 when it shares the referrer's host, plus 2 when its path names
/// one of the interesting sections.
pub open spec fn url_priority_spec(url: Seq<char>, referrer: Seq<char>) -> int {
    5 + (if url_parses(url) && url_parses(referrer) && url_host_of(url) == url_host_of(referrer) {
        3int
    } else {
        0int
    }) + (if url_parses(url) && (contains_spec(url_path_of(url), "/about"@) || contains_spec(
        url_path_of(url),
        "/contact"@,
    ) || contains_spec(url_path_of(url), "/services"@)) {
        2int
    } else {
        0int
    })
}

/// The frontier priority of `url` discovered on the page `referrer`.
pub fn calculate_url_priority(url: &str, referrer: &str) -> (r: i32)
    ensures
        r == url_priority_spec(url@, referrer@),
{
    let mut priority: i32 = 5;
    if same_host(url, referrer) {
        priority = priority + 3;
    }
    match parse_url(url) {
        None => {},
        Some(p) => {
            let path = chars_of(p.path.as_str());
            let about = chars_of("/about");
            let contact = chars_of("/contact");
            let services = chars_of("/services");
            if contains_chars(&path, &about) || contains_chars(&path, &contact)
                || contains_chars(&path, &services) {
                priority = priority + 2;
            }
        },
    }
    priority
}

/// The URL of the robots.txt file governing `url`: its origin with
/// `/robots.txt` appended; `None` where `url` does not parse.
pub fn robots_url_for(url: &str) -> (r: Option<String>)
    ensures
        r is Some <==> url_parses(url@),
        r matches Some(u) ==> u@ == url_origin_of(url@) + "/robots.txt"@,
{
    match parse_url(url) {
        None => None,
        Some(p) => {
            let mut s = p.origin;
            s.append("/robots.txt");
            Some(s)
        },
    }
}

/// The Google query URL asking for pages that link to `target`.
pub fn google_backlink_query_url(target: &str) -> (r: String)
    ensures
        r@ == "https://www.google.com/search?q="@ + percent_encode_spec("link:".spec_bytes())
            + percent_encode_spec(target.spec_bytes()) + "&num=100"@,
{
    let mut s = String::new();
    s.append("https://www.google.com/search?q=");
    let enc_op = percent_encode("link:");
    s.append(enc_op.as_str());
    let enc_target = percent_encode(target);
    s.append(enc_target.as_str());
    s.append("&num=100");
    s
}

/// The Bing query URL asking for pages linked from `target`'s domain.
pub fn bing_backlink_query_url(target: &str) -> (r: String)
    ensures
        r@ == "https://www.bing.com/search?q="@ + percent_encode_spec(
            "linkfromdomain:".spec_bytes(),
        ) + percent_encode_spec(target.spec_bytes()) + "&count=50"@,
{
    let mut s = String::new();
    s.append("https://www.bing.com/search?q=");
    let enc_op = percent_encode("linkfromdomain:");
    s.append(enc_op.as_str());
    let enc_target = percent_encode(target);
    s.append(enc_target.as_str());
    s.append("&count=50");
    s
}

/// The four seed URLs an integrated run opens a domain with: the domain
/// under each scheme, with and without a trailing slash.
pub fn domain_seed_urls(domain: &str) -> (r: Vec<String>)
    ensures
        r@.len() == 4,
        r@[0]@ == "https://"@ + domain@,
        r@[1]@ == "https://"@ + domain@ + "/"@,
        r@[2]@ == "http://"@ + domain@,
        r@[3]@ == "http://"@ + domain@ + "/"@,
{
    let mut a = String::new();
    a.append("https://");
    a.append(domain);
    let mut b = String::new();
    b.append("https://");
    b.append(domain);
    b.append("/");
    let mut c = String::new();
    c.append("http://");
    c.append(domain);
    let mut d = String::new();
    d.append("http://");
    d.append(domain);
    d.append("/");
    let mut r: Vec<String> = Vec::new();
    r.push(a);
    r.push(b);
    r.push(c);
    r.push(d);
    r
}

/// One fresh seed URL for each newly seen host of `urls[i..]`: the first
/// parseable URL of every host not yet in `seen` contributes
/// `scheme://host`, in order of first appearance.
pub open spec fn unique_domain_seeds_rec(urls: Seq<Seq<char>>, i: int, seen: Seq<Seq<char>>) -> Seq<
    Seq<char>,
>
    recommends
        0 <= i <= urls.len(),
    decreases urls.len() - i,
{
    if i < 0 || i >= urls.len() {
        Seq::empty()
    } else if url_parses(urls[i]) && !seen.contains(url_host_of(urls[i])) {
        seq![url_scheme_of(urls[i]) + "://"@ + url_host_of(urls[i])] + unique_domain_seeds_rec(
            urls,
            i + 1,
            seen.push(url_host_of(urls[i])),
        )
    } else {
        unique_domain_seeds_rec(urls, i + 1, seen)
    }
}

/// The fresh seed URLs of `urls`: `scheme://host` for each distinct host,
/// in order of first appearance.
pub open spec fn unique_domain_seeds_spec(urls: Seq<Seq<char>>) -> Seq<Seq<char>> {
    unique_domain_seeds_rec(urls, 0, Seq::empty())
}

/// One base URL per distinct host of `urls`: `scheme://host` of the first
/// parseable URL naming each host, in order of first appearance.  These
/// are the seeds that broaden coverage after a discovery batch.
pub fn unique_domain_seeds(urls: &Vec<String>) -> (r: Vec<String>)
    ensures
        r@.map_values(|s: String| s@) == unique_domain_seeds_spec(
            urls@.map_values(|u: String| u@),
        ),
{
    let ghost us = urls@.map_values(|u: String| u@);
    let mut seen: Vec<String> = Vec::new();
    let mut out: Vec<String> = Vec::new();
    let mut i: usize = 0;
    proof {
        assert(seen@.map_values(|s: String| s@) =~= Seq::<Seq<char>>::empty());
        assert(out@.map_values(|s: String| s@) =~= Seq::<Seq<char>>::empty());
        assert(out@.map_values(|s: String| s@) + unique_domain_seeds_rec(
            us,
            0,
            seen@.map_values(|s: String| s@),
        ) =~= unique_domain_seeds_spec(us));
    }
    while i < urls.len()
        invariant
            us == urls@.map_values(|u: String| u@),
            i <= us.len(),
            unique_domain_seeds_spec(us) == out@.map_values(|s: String| s@)
                + unique_domain_seeds_rec(us, i as int, seen@.map_values(|s: String| s@)),
        decreases us.len() - i,
    {
        let ghost seen0 = seen@.map_values(|s: String| s@);
        let ghost out0 = out@.map_values(|s: String| s@);
        proof {
            assert(urls@[i as int]@ == us[i as int]);
        }
        match parse_url(urls[i].as_str()) {
            None => {},
            Some(p) => {
                let host = chars_of(p.host.as_str());
                if !vec_contains_str(&seen, &host) {
                    let mut seed = String::new();
                    seed.append(p.scheme.as_str());
                    seed.append("://");
                    seed.append(p.host.as_str());
                    proof {
                        assert(seed@ == url_scheme_of(us[i as int]) + "://"@ + url_host_of(
                            us[i as int],
                        ));
                    }
                    out.push(seed);
                    seen.push(p.host);
                    proof {
                        assert(seen@.map_values(|s: String| s@) =~= seen0.push(
                            url_host_of(us[i as int]),
                        ));
                        assert(out@.map_values(|s: String| s@) =~= out0.push(
                            url_scheme_of(us[i as int]) + "://"@ + url_host_of(us[i as int]),
                        ));
                        assert(out@.map_values(|s: String| s@) + unique_domain_seeds_rec(
                            us,
                            i + 1 as int,
                            seen@.map_values(|s: String| s@),
                        ) =~= out0 + unique_domain_seeds_rec(us, i as int, seen0));
                    }
                }
            },
        }
        i = i + 1;
    }
    proof {
        assert(unique_domain_seeds_rec(us, us.len() as int, seen@.map_values(|s: String| s@))
            =~= Seq::<Seq<char>>::empty());
        assert(out@.map_values(|s: String| s@) + Seq::<Seq<char>>::empty() =~= out@.map_values(
            |s: String| s@,
        ));
    }
    out
}

} // verus!
