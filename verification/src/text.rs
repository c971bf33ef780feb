//! Character-level text utilities: trimming, substring search, whitespace
//! splitting, joining, and decimal formatting.  All specifications are stated
//! over `Seq<char>` views.

use vstd::prelude::*;

verus! {

/// The whitespace characters recognized by this crate (the ASCII ones).
pub open spec fn is_space_char(c: char) -> bool {
    c == ' ' || c == '\t' || c == '\n' || c == '\r' || c == '\u{b}' || c == '\u{c}'
}

/// Lower-casing of a single character, ASCII-only.
pub open spec fn lower_char_spec(c: char) -> char {
    if 'A' <= c && c <= 'Z' {
        (((c as u8) + 0x20) as u8) as char
    } else {
        c
    }
}

/// `needle` occurs at offset `i` of `hay`.
pub open spec fn matches_at(hay: Seq<char>, needle: Seq<char>, i: int) -> bool {
    forall|k: int| 0 <= k < needle.len() ==> hay[i + k] == needle[k]
}

/// `hay` has `needle` as a contiguous subsequence.
pub open spec fn contains_spec(hay: Seq<char>, needle: Seq<char>) -> bool {
    exists|i: int| 0 <= i <= hay.len() - needle.len() && matches_at(hay, needle, i)
}

/// `needle` occurs at offset `i` of `hay`, compared case-insensitively
/// (ASCII case folding).
pub open spec fn matches_ci_at(hay: Seq<char>, needle: Seq<char>, i: int) -> bool {
    forall|k: int|
        0 <= k < needle.len() ==> lower_char_spec(hay[i + k]) == lower_char_spec(needle[k])
}

/// Case-insensitive substring containment (ASCII case folding).
pub open spec fn contains_ci_spec(hay: Seq<char>, needle: Seq<char>) -> bool {
    exists|i: int| 0 <= i <= hay.len() - needle.len() && matches_ci_at(hay, needle, i)
}

/// `s` starts with `prefix`.
pub open spec fn starts_with_spec(s: Seq<char>, prefix: Seq<char>) -> bool {
    s.len() >= prefix.len() && matches_at(s, prefix, 0)
}

/// `s` starts with `prefix`, compared case-insensitively.
pub open spec fn starts_with_ci_spec(s: Seq<char>, prefix: Seq<char>) -> bool {
    s.len() >= prefix.len() && matches_ci_at(s, prefix, 0)
}

/// `s` ends with `suffix`.
pub open spec fn ends_with_spec(s: Seq<char>, suffix: Seq<char>) -> bool {
    s.len() >= suffix.len() && matches_at(s, suffix, s.len() - suffix.len())
}

/// `s` with leading and trailing whitespace removed.
pub open spec fn trim_spec(s: Seq<char>) -> Seq<char>
    decreases s.len(),
{
    if s.len() == 0 {
        s
    } else if is_space_char(s[0]) {
        trim_spec(s.drop_first())
    } else if is_space_char(s[s.len() - 1]) {
        trim_spec(s.drop_last())
    } else {
        s
    }
}

/// The whitespace-separated tokens of `s[i..]`, given the token `cur` under
/// construction and the tokens `acc` already finished.
pub open spec fn split_ws_rec(s: Seq<char>, i: int, cur: Seq<char>, acc: Seq<Seq<char>>) -> Seq<
    Seq<char>,
>
    recommends
        0 <= i <= s.len(),
    decreases s.len() - i,
{
    if i < 0 || i >= s.len() {
        if cur.len() > 0 {
            acc.push(cur)
        } else {
            acc
        }
    } else if is_space_char(s[i]) {
        if cur.len() > 0 {
            split_ws_rec(s, i + 1, Seq::empty(), acc.push(cur))
        } else {
            split_ws_rec(s, i + 1, cur, acc)
        }
    } else {
        split_ws_rec(s, i + 1, cur.push(s[i]), acc)
    }
}

/// The whitespace-separated tokens of `s`, in order, each non-empty.
pub open spec fn split_ws_spec(s: Seq<char>) -> Seq<Seq<char>> {
    split_ws_rec(s, 0, Seq::empty(), Seq::empty())
}

/// The number of whitespace-separated tokens of `s`.
pub open spec fn word_count_spec(s: Seq<char>) -> nat {
    split_ws_spec(s).len()
}

/// The pieces of `s[i..]` split on the character `sep`; an empty `s` yields
/// one empty piece, as `str::split` does.
pub open spec fn split_char_rec(s: Seq<char>, sep: char, i: int, cur: Seq<char>, acc: Seq<
    Seq<char>,
>) -> Seq<Seq<char>>
    recommends
        0 <= i <= s.len(),
    decreases s.len() - i,
{
    if i < 0 || i >= s.len() {
        acc.push(cur)
    } else if s[i] == sep {
        split_char_rec(s, sep, i + 1, Seq::empty(), acc.push(cur))
    } else {
        split_char_rec(s, sep, i + 1, cur.push(s[i]), acc)
    }
}

/// The pieces of `s` split on `sep`.
pub open spec fn split_char_spec(s: Seq<char>, sep: char) -> Seq<Seq<char>> {
    split_char_rec(s, sep, 0, Seq::empty(), Seq::empty())
}

/// Splitting always yields at least one more piece than were already
/// finished.
pub proof fn lemma_split_char_rec_len(
    s: Seq<char>,
    sep: char,
    i: int,
    cur: Seq<char>,
    acc: Seq<Seq<char>>,
)
    ensures
        split_char_rec(s, sep, i, cur, acc).len() >= acc.len() + 1,
    decreases s.len() - i,
{
    if i < 0 || i >= s.len() {
    } else if s[i] == sep {
        lemma_split_char_rec_len(s, sep, i + 1, Seq::empty(), acc.push(cur));
    } else {
        lemma_split_char_rec_len(s, sep, i + 1, cur.push(s[i]), acc);
    }
}

/// `parts` interleaved with the single character `sep`.
pub open spec fn join_spec(parts: Seq<Seq<char>>, sep: char) -> Seq<char>
    decreases parts.len(),
{
    if parts.len() == 0 {
        Seq::empty()
    } else if parts.len() == 1 {
        parts[0]
    } else {
        join_spec(parts.drop_last(), sep).push(sep) + parts.last()
    }
}

/// `s` with every maximal whitespace run replaced by one space and the ends
/// trimmed: its tokens joined by single spaces.
pub open spec fn collapse_ws_spec(s: Seq<char>) -> Seq<char> {
    join_spec(split_ws_spec(s), ' ')
}

/// The decimal digits of `n`, most significant first.
pub open spec fn decimal_spec(n: nat) -> Seq<char>
    decreases n,
{
    if n < 10 {
        seq![((0x30 + n) as u8) as char]
    } else {
        decimal_spec(n / 10).push(((0x30 + n % 10) as u8) as char)
    }
}

/// Relies on `str::chars`: the characters of the string, in order, which is
/// exactly the string's view.
#[verifier::external_body]
pub(crate) fn chars_of(s: &str) -> (r: Vec<char>)
    ensures
        r@ == s@,
{
    s.chars().collect()
}

/// Relies on `String`'s `FromIterator<char>`: collecting characters yields the
/// string with exactly those characters.
#[verifier::external_body]
pub(crate) fn string_from_chars(v: &Vec<char>) -> (r: String)
    ensures
        r@ == v@,
{
    v.iter().collect()
}

/// Whether `c` is one of this crate's whitespace characters.
pub fn is_space(c: char) -> (r: bool)
    ensures
        r == is_space_char(c),
{
    c == ' ' || c == '\t' || c == '\n' || c == '\r' || c == '\u{b}' || c == '\u{c}'
}

/// ASCII lower-casing of one character.
pub fn lower_char(c: char) -> (r: char)
    ensures
        r == lower_char_spec(c),
{
    if 'A' <= c && c <= 'Z' {
        (((c as u8) + 0x20) as u8) as char
    } else {
        c
    }
}

/// `hay` contains `needle` as a substring.
pub fn contains_chars(hay: &Vec<char>, needle: &Vec<char>) -> (r: bool)
    ensures
        r == contains_spec(hay@, needle@),
{
    if needle.len() > hay.len() {
        assert(!contains_spec(hay@, needle@));
        return false;
    }
    let end: usize = hay.len() - needle.len();
    let mut i: usize = 0;
    while i <= end
        invariant
            needle.len() <= hay.len(),
            end == hay.len() - needle.len(),
            i <= end + 1,
            forall|j: int| 0 <= j < i ==> !matches_at(hay@, needle@, j),
        decreases end + 1 - i,
    {
        let mut k: usize = 0;
        let mut hit = true;
        while k < needle.len()
            invariant
                needle.len() <= hay.len(),
                i <= hay.len() - needle.len(),
                k <= needle.len(),
                hit == (forall|m: int| 0 <= m < k ==> hay@[i + m] == needle@[m]),
            decreases needle.len() - k,
        {
            if hay[i + k] != needle[k] {
                hit = false;
                k = needle.len();
            } else {
                k = k + 1;
            }
        }
        if hit {
            assert(matches_at(hay@, needle@, i as int));
            return true;
        }
        i = i + 1;
    }
    false
}

/// `hay` contains `needle` as a substring, compared with ASCII case folding.
pub fn contains_chars_ci(hay: &Vec<char>, needle: &Vec<char>) -> (r: bool)
    ensures
        r == contains_ci_spec(hay@, needle@),
{
    if needle.len() > hay.len() {
        assert(!contains_ci_spec(hay@, needle@));
        return false;
    }
    let end: usize = hay.len() - needle.len();
    let mut i: usize = 0;
    while i <= end
        invariant
            needle.len() <= hay.len(),
            end == hay.len() - needle.len(),
            i <= end + 1,
            forall|j: int| 0 <= j < i ==> !matches_ci_at(hay@, needle@, j),
        decreases end + 1 - i,
    {
        let mut k: usize = 0;
        let mut hit = true;
        while k < needle.len()
            invariant
                needle.len() <= hay.len(),
                i <= hay.len() - needle.len(),
                k <= needle.len(),
                hit == (forall|m: int|
                    0 <= m < k ==> lower_char_spec(hay@[i + m]) == lower_char_spec(needle@[m])),
            decreases needle.len() - k,
        {
            if lower_char(hay[i + k]) != lower_char(needle[k]) {
                hit = false;
                k = needle.len();
            } else {
                k = k + 1;
            }
        }
        if hit {
            assert(matches_ci_at(hay@, needle@, i as int));
            return true;
        }
        i = i + 1;
    }
    false
}

/// `s` starts with `prefix`, compared with ASCII case folding.
pub fn starts_with_ci(s: &Vec<char>, prefix: &Vec<char>) -> (r: bool)
    ensures
        r == starts_with_ci_spec(s@, prefix@),
{
    if prefix.len() > s.len() {
        return false;
    }
    let mut k: usize = 0;
    while k < prefix.len()
        invariant
            prefix.len() <= s.len(),
            k <= prefix.len(),
            forall|m: int| 0 <= m < k ==> lower_char_spec(s@[m]) == lower_char_spec(prefix@[m]),
        decreases prefix.len() - k,
    {
        if lower_char(s[k]) != lower_char(prefix[k]) {
            return false;
        }
        k = k + 1;
    }
    true
}

/// `s` starts with `prefix`.
pub fn starts_with(s: &Vec<char>, prefix: &Vec<char>) -> (r: bool)
    ensures
        r == starts_with_spec(s@, prefix@),
{
    if prefix.len() > s.len() {
        return false;
    }
    let mut k: usize = 0;
    while k < prefix.len()
        invariant
            prefix.len() <= s.len(),
            k <= prefix.len(),
            forall|m: int| 0 <= m < k ==> s@[m] == prefix@[m],
        decreases prefix.len() - k,
    {
        if s[k] != prefix[k] {
            return false;
        }
        k = k + 1;
    }
    true
}

/// `s` ends with `suffix`.
pub fn ends_with(s: &Vec<char>, suffix: &Vec<char>) -> (r: bool)
    ensures
        r == ends_with_spec(s@, suffix@),
{
    if suffix.len() > s.len() {
        return false;
    }
    let off: usize = s.len() - suffix.len();
    let mut k: usize = 0;
    while k < suffix.len()
        invariant
            suffix.len() <= s.len(),
            off == s.len() - suffix.len(),
            k <= suffix.len(),
            forall|m: int| 0 <= m < k ==> s@[off + m] == suffix@[m],
        decreases suffix.len() - k,
    {
        if s[off + k] != suffix[k] {
            return false;
        }
        k = k + 1;
    }
    true
}

/// Character-for-character equality of two vectors.
pub fn eq_chars(a: &Vec<char>, b: &Vec<char>) -> (r: bool)
    ensures
        r == (a@ == b@),
{
    if a.len() != b.len() {
        return false;
    }
    let mut k: usize = 0;
    while k < a.len()
        invariant
            a@.len() == b@.len(),
            k <= a@.len(),
            forall|m: int| 0 <= m < k ==> a@[m] == b@[m],
        decreases a@.len() - k,
    {
        if a[k] != b[k] {
            return false;
        }
        k = k + 1;
    }
    proof {
        assert(a@ =~= b@);
    }
    true
}

/// Whether the string `key` is one of `v`'s elements.
pub fn vec_contains_str(v: &Vec<String>, key: &Vec<char>) -> (r: bool)
    ensures
        r == v@.map_values(|s: String| s@).contains(key@),
{
    let mut i: usize = 0;
    while i < v.len()
        invariant
            i <= v@.len(),
            forall|j: int| 0 <= j < i ==> v@[j]@ != key@,
        decreases v@.len() - i,
    {
        let e = chars_of(v[i].as_str());
        if eq_chars(&e, key) {
            proof {
                assert(v@.map_values(|s: String| s@)[i as int] == key@);
            }
            return true;
        }
        i = i + 1;
    }
    proof {
        let m = v@.map_values(|s: String| s@);
        if m.contains(key@) {
            let j = choose|j: int| 0 <= j < m.len() && m[j] == key@;
            assert(v@[j]@ == key@);
        }
    }
    false
}

/// The subrange `v[from..to]` as a fresh vector.
pub fn subrange_chars(v: &Vec<char>, from: usize, to: usize) -> (r: Vec<char>)
    requires
        from <= to <= v@.len(),
    ensures
        r@ == v@.subrange(from as int, to as int),
{
    let mut r: Vec<char> = Vec::new();
    let mut i: usize = from;
    while i < to
        invariant
            from <= i <= to <= v@.len(),
            r@ == v@.subrange(from as int, i as int),
        decreases to - i,
    {
        r.push(v[i]);
        assert(r@ =~= v@.subrange(from as int, i + 1 as int));
        i = i + 1;
    }
    r
}

/// `s` with leading and trailing whitespace removed.
pub fn trim_chars(s: &Vec<char>) -> (r: Vec<char>)
    ensures
        r@ == trim_spec(s@),
{
    let mut a: usize = 0;
    let mut b: usize = s.len();
    assert(s@.subrange(0, s@.len() as int) =~= s@);
    while a < b && is_space(s[a])
        invariant
            a <= b <= s@.len(),
            trim_spec(s@) == trim_spec(s@.subrange(a as int, b as int)),
        decreases b - a,
    {
        proof {
            let sub = s@.subrange(a as int, b as int);
            assert(sub.drop_first() =~= s@.subrange(a + 1 as int, b as int));
        }
        a = a + 1;
    }
    while b > a && is_space(s[b - 1])
        invariant
            a <= b <= s@.len(),
            trim_spec(s@) == trim_spec(s@.subrange(a as int, b as int)),
            b > a ==> !is_space_char(s@[a as int]),
        decreases b - a,
    {
        proof {
            let sub = s@.subrange(a as int, b as int);
            assert(sub.drop_last() =~= s@.subrange(a as int, b - 1 as int));
        }
        b = b - 1;
    }
    proof {
        let sub = s@.subrange(a as int, b as int);
        assert(trim_spec(sub) == sub);
    }
    subrange_chars(s, a, b)
}

/// The whitespace-separated tokens of `s`, in order.
pub fn split_ws(s: &Vec<char>) -> (r: Vec<Vec<char>>)
    ensures
        r.deep_view() == split_ws_spec(s@),
{
    let mut acc: Vec<Vec<char>> = Vec::new();
    let mut cur: Vec<char> = Vec::new();
    let mut i: usize = 0;
    assert(acc.deep_view() =~~= Seq::<Seq<char>>::empty());
    while i < s.len()
        invariant
            i <= s@.len(),
            split_ws_spec(s@) == split_ws_rec(s@, i as int, cur@, acc.deep_view()),
        decreases s@.len() - i,
    {
        let ghost dv0 = acc.deep_view();
        if is_space(s[i]) {
            if cur.len() > 0 {
                acc.push(cur);
                assert(acc.deep_view() =~~= dv0.push(acc@[acc@.len() - 1]@));
                cur = Vec::new();
            }
        } else {
            cur.push(s[i]);
        }
        i = i + 1;
    }
    if cur.len() > 0 {
        let ghost dv0 = acc.deep_view();
        acc.push(cur);
        assert(acc.deep_view() =~~= dv0.push(acc@[acc@.len() - 1]@));
    }
    acc
}

/// The pieces of `s` split on the character `sep`.
pub fn split_char(s: &Vec<char>, sep: char) -> (r: Vec<Vec<char>>)
    ensures
        r.deep_view() == split_char_spec(s@, sep),
{
    let mut acc: Vec<Vec<char>> = Vec::new();
    let mut cur: Vec<char> = Vec::new();
    let mut i: usize = 0;
    assert(acc.deep_view() =~~= Seq::<Seq<char>>::empty());
    while i < s.len()
        invariant
            i <= s@.len(),
            split_char_spec(s@, sep) == split_char_rec(s@, sep, i as int, cur@, acc.deep_view()),
        decreases s@.len() - i,
    {
        let ghost dv0 = acc.deep_view();
        if s[i] == sep {
            acc.push(cur);
            assert(acc.deep_view() =~~= dv0.push(acc@[acc@.len() - 1]@));
            cur = Vec::new();
        } else {
            cur.push(s[i]);
        }
        i = i + 1;
    }
    let ghost dv0 = acc.deep_view();
    acc.push(cur);
    assert(acc.deep_view() =~~= dv0.push(acc@[acc@.len() - 1]@));
    acc
}

/// `parts` joined with the single character `sep` between them.
pub fn join_chars(parts: &Vec<Vec<char>>, sep: char) -> (r: Vec<char>)
    ensures
        r@ == join_spec(parts.deep_view(), sep),
{
    let mut r: Vec<char> = Vec::new();
    let mut i: usize = 0;
    while i < parts.len()
        invariant
            i <= parts@.len(),
            r@ == join_spec(parts.deep_view().take(i as int), sep),
        decreases parts@.len() - i,
    {
        if i > 0 {
            r.push(sep);
        }
        let mut k: usize = 0;
        let ghost mid = r@;
        while k < parts[i].len()
            invariant
                i < parts@.len(),
                k <= parts@[i as int]@.len(),
                r@ == mid + parts.deep_view()[i as int].take(k as int),
            decreases parts@[i as int]@.len() - k,
        {
            r.push(parts[i][k]);
            assert(r@ =~= mid + parts.deep_view()[i as int].take(k + 1 as int));
            k = k + 1;
        }
        proof {
            let dv = parts.deep_view();
            assert(dv[i as int].take(dv[i as int].len() as int) =~= dv[i as int]);
            assert(dv.take(i + 1 as int).drop_last() =~= dv.take(i as int));
            assert(dv.take(i + 1 as int).last() == dv[i as int]);
            if i == 0 {
                assert(r@ =~= join_spec(dv.take(1), sep));
            }
        }
        i = i + 1;
    }
    proof {
        assert(parts.deep_view().take(parts@.len() as int) =~= parts.deep_view());
    }
    r
}

/// The tokens of `s` joined by single spaces: `s` with whitespace collapsed.
pub fn collapse_ws(s: &Vec<char>) -> (r: Vec<char>)
    ensures
        r@ == collapse_ws_spec(s@),
{
    let parts = split_ws(s);
    join_chars(&parts, ' ')
}

/// The number of whitespace-separated tokens of `s`.
pub fn count_words_chars(s: &Vec<char>) -> (r: usize)
    ensures
        r == word_count_spec(s@),
{
    let parts = split_ws(s);
    proof {
        assert(parts@.len() == parts.deep_view().len());
    }
    parts.len()
}

/// The first `n` characters of `s`, or all of `s` where it is shorter.
pub open spec fn take_at_most(s: Seq<char>, n: int) -> Seq<char> {
    if s.len() <= n {
        s
    } else {
        s.take(n)
    }
}

/// The first `n` characters of `s`, or all of `s` if it is shorter.
pub fn take_chars(s: &Vec<char>, n: usize) -> (r: Vec<char>)
    ensures
        r@ == take_at_most(s@, n as int),
{
    if s.len() <= n {
        let r = subrange_chars(s, 0, s.len());
        assert(r@ =~= s@);
        r
    } else {
        let r = subrange_chars(s, 0, n);
        assert(r@ =~= s@.take(n as int));
        r
    }
}

/// The decimal rendering of `n`, appended to `out`.
fn push_decimal(n: u64, out: &mut Vec<char>)
    ensures
        final (out)@ == old(out)@ + decimal_spec(n as nat),
    decreases n,
{
    if n < 10 {
        out.push(((0x30 + (n as u8)) as u8) as char);
    } else {
        push_decimal(n / 10, out);
        out.push(((0x30 + ((n % 10) as u8)) as u8) as char);
    }
}

/// The decimal rendering of `n`.
pub fn decimal_chars(n: u64) -> (r: Vec<char>)
    ensures
        r@ == decimal_spec(n as nat),
{
    let mut out: Vec<char> = Vec::new();
    push_decimal(n, &mut out);
    assert(out@ =~= decimal_spec(n as nat));
    out
}

} // verus!

