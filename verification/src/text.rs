//! Plain-text helpers shared by the parsers: characters, lines, words,
//! trimming and substring search, each stated over `Seq<char>`.
use vstd::prelude::*;

use crate::check::texts;
use crate::export::{lemma_str_less_transitive, lemma_str_less_trichotomy, str_less, str_lt};

verus! {

/// `char::is_whitespace`: the Unicode `White_Space` property.
pub open spec fn is_ws(c: char) -> bool {
    let u = c as u32;
    ||| 0x9 <= u <= 0xd
    ||| u == 0x20
    ||| u == 0x85
    ||| u == 0xa0
    ||| u == 0x1680
    ||| 0x2000 <= u <= 0x200a
    ||| u == 0x2028
    ||| u == 0x2029
    ||| u == 0x202f
    ||| u == 0x205f
    ||| u == 0x3000
}

pub open spec fn ws_pred() -> spec_fn(char) -> bool {
    |c: char| is_ws(c)
}

pub open spec fn word_pred() -> spec_fn(char) -> bool {
    |c: char| !is_ws(c)
}

pub open spec fn not_newline_pred() -> spec_fn(char) -> bool {
    |c: char| c != '\n'
}

/// Length of the longest prefix of `s` whose characters all satisfy `p`.
pub open spec fn prefix_len(s: Seq<char>, p: spec_fn(char) -> bool) -> nat
    decreases s.len(),
{
    if s.len() > 0 && p(s[0]) {
        1 + prefix_len(s.drop_first(), p)
    } else {
        0
    }
}

pub proof fn lemma_prefix_len(s: Seq<char>, p: spec_fn(char) -> bool)
    ensures
        prefix_len(s, p) <= s.len(),
        forall|j: int| 0 <= j < prefix_len(s, p) ==> p(#[trigger] s[j]),
        prefix_len(s, p) < s.len() ==> !p(s[prefix_len(s, p) as int]),
    decreases s.len(),
{
    if s.len() > 0 && p(s[0]) {
        lemma_prefix_len(s.drop_first(), p);
        assert forall|j: int| 0 <= j < prefix_len(s, p) implies p(#[trigger] s[j]) by {
            if j > 0 {
                assert(s[j] == s.drop_first()[j - 1]);
            }
        }
    }
}

/// The prefix length is the first index whose character fails `p`.
pub proof fn lemma_prefix_len_at(s: Seq<char>, p: spec_fn(char) -> bool, k: int)
    requires
        0 <= k <= s.len(),
        forall|j: int| 0 <= j < k ==> p(#[trigger] s[j]),
        k == s.len() || !p(s[k]),
    ensures
        prefix_len(s, p) == k,
    decreases k,
{
    if k > 0 {
        assert forall|j: int| 0 <= j < k - 1 implies p(#[trigger] s.drop_first()[j]) by {
            assert(s.drop_first()[j] == s[j + 1]);
        }
        lemma_prefix_len_at(s.drop_first(), p, k - 1);
    }
}

/// `str::trim_start`.
pub open spec fn trim_start(s: Seq<char>) -> Seq<char> {
    s.skip(prefix_len(s, ws_pred()) as int)
}

/// Number of trailing whitespace characters.
pub open spec fn suffix_ws_len(s: Seq<char>) -> nat
    decreases s.len(),
{
    if s.len() > 0 && is_ws(s.last()) {
        1 + suffix_ws_len(s.drop_last())
    } else {
        0
    }
}

/// `str::trim_end`.
pub open spec fn trim_end(s: Seq<char>) -> Seq<char> {
    s.take(s.len() - suffix_ws_len(s))
}

/// `str::trim`.
pub open spec fn trim(s: Seq<char>) -> Seq<char> {
    trim_end(trim_start(s))
}

pub proof fn lemma_suffix_ws_len(s: Seq<char>)
    ensures
        suffix_ws_len(s) <= s.len(),
        forall|j: int| s.len() - suffix_ws_len(s) <= j < s.len() ==> is_ws(#[trigger] s[j]),
        suffix_ws_len(s) < s.len() ==> !is_ws(s[s.len() - suffix_ws_len(s) - 1]),
    decreases s.len(),
{
    if s.len() > 0 && is_ws(s.last()) {
        lemma_suffix_ws_len(s.drop_last());
        assert forall|j: int| s.len() - suffix_ws_len(s) <= j < s.len() implies is_ws(
            #[trigger] s[j],
        ) by {
            if j < s.len() - 1 {
                assert(s[j] == s.drop_last()[j]);
            }
        }
    }
}

pub proof fn lemma_suffix_ws_len_at(s: Seq<char>, k: int)
    requires
        0 <= k <= s.len(),
        forall|j: int| s.len() - k <= j < s.len() ==> is_ws(#[trigger] s[j]),
        k == s.len() || !is_ws(s[s.len() - k - 1]),
    ensures
        suffix_ws_len(s) == k,
    decreases k,
{
    if k > 0 {
        assert forall|j: int| s.drop_last().len() - (k - 1) <= j < s.drop_last().len() implies is_ws(
            #[trigger] s.drop_last()[j],
        ) by {
            assert(s.drop_last()[j] == s[j]);
        }
        lemma_suffix_ws_len_at(s.drop_last(), k - 1);
    }
}

/// `str::split_whitespace`: the maximal runs of non-whitespace characters.
pub open spec fn words(s: Seq<char>) -> Seq<Seq<char>>
    decreases s.len(),
{
    let t = trim_start(s);
    if t.len() == 0 {
        seq![]
    } else {
        let w = prefix_len(t, word_pred());
        proof {
            lemma_prefix_len(s, ws_pred());
            lemma_prefix_len(t, word_pred());
        }
        if w == 0 {
            seq![]
        } else {
            seq![t.take(w as int)] + words(t.skip(w as int))
        }
    }
}

/// Strip one `\r` left before a line's `\n`.
pub open spec fn strip_cr(s: Seq<char>) -> Seq<char> {
    if s.len() > 0 && s.last() == '\r' {
        s.drop_last()
    } else {
        s
    }
}

/// `str::lines`: split at `\n` (dropping a `\r` before it); no line follows a
/// final `\n`, and the empty text has no lines.
pub open spec fn lines(s: Seq<char>) -> Seq<Seq<char>>
    decreases s.len(),
{
    if s.len() == 0 {
        seq![]
    } else {
        let i = prefix_len(s, not_newline_pred());
        proof {
            lemma_prefix_len(s, not_newline_pred());
        }
        if i >= s.len() {
            seq![s]
        } else {
            seq![strip_cr(s.take(i as int))] + lines(s.skip(i as int + 1))
        }
    }
}

/// `needle` occurs in `hay` starting at `i`.
pub open spec fn occurs_at(hay: Seq<char>, needle: Seq<char>, i: int) -> bool {
    0 <= i && i + needle.len() <= hay.len() && hay.subrange(i, i + needle.len()) == needle
}

/// `str::contains` for a string pattern.
pub open spec fn contains(hay: Seq<char>, needle: Seq<char>) -> bool {
    exists|i: int| occurs_at(hay, needle, i)
}

pub open spec fn starts_with(s: Seq<char>, prefix: Seq<char>) -> bool {
    prefix.len() <= s.len() && s.take(prefix.len() as int) == prefix
}

pub open spec fn ends_with(s: Seq<char>, suffix: Seq<char>) -> bool {
    suffix.len() <= s.len() && s.skip(s.len() - suffix.len()) == suffix
}

/// The text as owned characters.
pub fn chars_of(s: &str) -> (v: Vec<char>)
    ensures
        v@ == s@,
{
    broadcast use vstd::string::group_string_axioms;

    let mut v: Vec<char> = Vec::new();
    for c in it: s.chars()
        invariant
            it.seq() == s@,
            v@ == it.seq().take(it.index() as int),
    {
        v.push(c);
        assert(v@ =~= it.seq().take(it.index() + 1));
    }
    assert(v@ =~= s@);
    v
}

/// Append the characters of `s`.
pub fn push_str(out: &mut Vec<char>, s: &str)
    ensures
        final(out)@ == old(out)@ + s@,
{
    let v = chars_of(s);
    push_all(out, &v);
}

/// Append the characters of `v`.
pub fn push_all(out: &mut Vec<char>, v: &Vec<char>)
    ensures
        final(out)@ == old(out)@ + v@,
{
    let mut i: usize = 0;
    while i < v.len()
        invariant
            i <= v.len(),
            out@ == old(out)@ + v@.take(i as int),
        decreases v.len() - i,
    {
        out.push(v[i]);
        assert(out@ =~= old(out)@ + v@.take(i + 1));
        i = i + 1;
    }
    assert(v@.take(v.len() as int) =~= v@);
}

/// `String::push`.
#[verifier::external_body]
fn push_char(s: &mut String, c: char)
    ensures
        final(s)@ == old(s)@.push(c),
{
    s.push(c);
}

/// The characters as a `String`.
pub fn string_of(v: &[char]) -> (s: String)
    ensures
        s@ == v@,
{
    let mut s = String::new();
    let mut i: usize = 0;
    while i < v.len()
        invariant
            i <= v.len(),
            s@ == v@.take(i as int),
        decreases v.len() - i,
    {
        push_char(&mut s, v[i]);
        assert(s@ =~= v@.take(i + 1));
        i = i + 1;
    }
    assert(s@ =~= v@);
    s
}

/// `String::from(&str)`.
pub fn owned(s: &str) -> (r: String)
    ensures
        r@ == s@,
{
    s.to_string()
}

/// `a` followed by `b`.
pub fn cat(a: &str, b: &str) -> (r: String)
    ensures
        r@ == a@ + b@,
{
    let r = owned(a);
    r.concat(b)
}

pub fn is_whitespace(c: char) -> (b: bool)
    ensures
        b == is_ws(c),
{
    let u = c as u32;
    (0x9 <= u && u <= 0xd) || u == 0x20 || u == 0x85 || u == 0xa0 || u == 0x1680 || (0x2000 <= u
        && u <= 0x200a) || u == 0x2028 || u == 0x2029 || u == 0x202f || u == 0x205f || u
        == 0x3000
}

/// First index at or after `i` whose character is not whitespace.
fn skip_ws(s: &Vec<char>, i: usize) -> (j: usize)
    requires
        i <= s.len(),
    ensures
        j == i + prefix_len(s@.skip(i as int), ws_pred()),
        j <= s.len(),
{
    let mut j = i;
    while j < s.len() && is_whitespace(s[j])
        invariant
            i <= j <= s.len(),
            forall|k: int| i <= k < j ==> is_ws(#[trigger] s@[k]),
        decreases s.len() - j,
    {
        j = j + 1;
    }
    proof {
        let t = s@.skip(i as int);
        assert forall|k: int| 0 <= k < j - i implies (ws_pred())(#[trigger] t[k]) by {
            assert(t[k] == s@[k + i]);
        }
        lemma_prefix_len_at(t, ws_pred(), j - i);
    }
    j
}

/// First index at or after `i` whose character is whitespace.
fn skip_word(s: &Vec<char>, i: usize) -> (j: usize)
    requires
        i <= s.len(),
    ensures
        j == i + prefix_len(s@.skip(i as int), word_pred()),
        j <= s.len(),
{
    let mut j = i;
    while j < s.len() && !is_whitespace(s[j])
        invariant
            i <= j <= s.len(),
            forall|k: int| i <= k < j ==> !is_ws(#[trigger] s@[k]),
        decreases s.len() - j,
    {
        j = j + 1;
    }
    proof {
        let t = s@.skip(i as int);
        assert forall|k: int| 0 <= k < j - i implies (word_pred())(#[trigger] t[k]) by {
            assert(t[k] == s@[k + i]);
        }
        lemma_prefix_len_at(t, word_pred(), j - i);
    }
    j
}

/// The views of a sequence of character vectors.
pub open spec fn views(v: Seq<Vec<char>>) -> Seq<Seq<char>> {
    Seq::new(v.len(), |i: int| v[i]@)
}

pub(crate) fn slice_vec(s: &Vec<char>, from: usize, to: usize) -> (r: Vec<char>)
    requires
        from <= to <= s.len(),
    ensures
        r@ == s@.subrange(from as int, to as int),
{
    let mut r: Vec<char> = Vec::new();
    let mut k = from;
    while k < to
        invariant
            from <= k <= to <= s.len(),
            r@ == s@.subrange(from as int, k as int),
        decreases to - k,
    {
        r.push(s[k]);
        assert(r@ =~= s@.subrange(from as int, k + 1));
        k = k + 1;
    }
    r
}

/// `str::split_whitespace`, collected.
pub fn split_words(s: &Vec<char>) -> (r: Vec<Vec<char>>)
    ensures
        views(r@) == words(s@),
{
    let mut r: Vec<Vec<char>> = Vec::new();
    let mut i: usize = 0;
    proof {
        assert(s@.skip(0) =~= s@);
    }
    loop
        invariant
            i <= s.len(),
            views(r@) + words(s@.skip(i as int)) == words(s@),
        decreases s.len() - i,
    {
        let j = skip_ws(s, i);
        let ghost t = s@.skip(i as int);
        proof {
            lemma_prefix_len(t, ws_pred());
            assert(trim_start(t) =~= s@.skip(j as int));
        }
        if j == s.len() {
            proof {
                assert(words(t) == Seq::<Seq<char>>::empty());
                assert(views(r@) =~= views(r@) + words(t));
            }
            return r;
        }
        let k = skip_word(s, j);
        proof {
            let u = s@.skip(j as int);
            lemma_prefix_len(u, word_pred());
            assert(!is_ws(u[0]));
            assert(k > j);
            assert(u.take(k - j) =~= s@.subrange(j as int, k as int));
            assert(u.skip(k - j) =~= s@.skip(k as int));
            assert(words(t) == seq![s@.subrange(j as int, k as int)] + words(s@.skip(k as int)));
        }
        let w = slice_vec(s, j, k);
        let ghost old_r = r@;
        r.push(w);
        proof {
            assert(views(r@) =~= views(old_r).push(s@.subrange(j as int, k as int)));
            assert(views(r@) + words(s@.skip(k as int)) =~= views(old_r) + (seq![
                s@.subrange(j as int, k as int),
            ] + words(s@.skip(k as int))));
        }
        i = k;
    }
}

/// `str::lines`, collected.
pub fn split_lines(s: &Vec<char>) -> (r: Vec<Vec<char>>)
    ensures
        views(r@) == lines(s@),
{
    let mut r: Vec<Vec<char>> = Vec::new();
    let mut i: usize = 0;
    proof {
        assert(s@.skip(0) =~= s@);
    }
    loop
        invariant
            i <= s.len(),
            views(r@) + lines(s@.skip(i as int)) == lines(s@),
        decreases s.len() - i,
    {
        let ghost t = s@.skip(i as int);
        if i == s.len() {
            proof {
                assert(t.len() == 0);
                assert(views(r@) =~= views(r@) + lines(t));
            }
            return r;
        }
        let mut j = i;
        while j < s.len() && s[j] != '\n'
            invariant
                i <= j <= s.len(),
                forall|k: int| i <= k < j ==> #[trigger] s@[k] != '\n',
            decreases s.len() - j,
        {
            j = j + 1;
        }
        proof {
            assert forall|k: int| 0 <= k < j - i implies (not_newline_pred())(#[trigger] t[k]) by {
                assert(t[k] == s@[k + i]);
            }
            lemma_prefix_len_at(t, not_newline_pred(), j - i);
        }
        let ghost old_r = r@;
        if j == s.len() {
            let w = slice_vec(s, i, j);
            r.push(w);
            proof {
                assert(w@ =~= t);
                assert(lines(t) == seq![t]);
                assert(views(r@) =~= views(old_r) + lines(t));
                assert(s@.skip(j as int).len() == 0);
                assert(lines(s@.skip(j as int)) == Seq::<Seq<char>>::empty());
                assert(views(r@) + lines(s@.skip(j as int)) =~= views(r@));
            }
            i = j;
        } else {
            let end = if j > i && s[j - 1] == '\r' {
                j - 1
            } else {
                j
            };
            let w = slice_vec(s, i, end);
            r.push(w);
            proof {
                assert(t.take(j - i) =~= s@.subrange(i as int, j as int));
                assert(w@ =~= strip_cr(t.take(j - i)));
                assert(t.skip(j - i + 1) =~= s@.skip(j + 1));
                assert(lines(t) == seq![strip_cr(t.take(j - i))] + lines(s@.skip(j + 1)));
                assert(views(r@) =~= views(old_r).push(w@));
                assert(views(r@) + lines(s@.skip(j + 1)) =~= views(old_r) + lines(t));
            }
            i = j + 1;
        }
    }
}

/// Whether `needle` occurs in `hay` at `i`.
fn occurs_here(hay: &Vec<char>, needle: &Vec<char>, i: usize) -> (b: bool)
    requires
        i + needle.len() <= hay.len(),
    ensures
        b == occurs_at(hay@, needle@, i as int),
{
    let mut k: usize = 0;
    while k < needle.len()
        invariant
            k <= needle.len(),
            i + needle.len() <= hay.len(),
            forall|m: int| 0 <= m < k ==> hay@[i + m] == needle@[m],
        decreases needle.len() - k,
    {
        if hay[i + k] != needle[k] {
            proof {
                let sub = hay@.subrange(i as int, i + needle.len());
                assert(sub[k as int] != needle@[k as int]);
            }
            return false;
        }
        k = k + 1;
    }
    assert(hay@.subrange(i as int, i + needle.len()) =~= needle@);
    true
}

/// `str::contains`.
pub fn contains_seq(hay: &Vec<char>, needle: &Vec<char>) -> (b: bool)
    ensures
        b == contains(hay@, needle@),
{
    if needle.len() > hay.len() {
        return false;
    }
    let last = hay.len() - needle.len();
    let mut i: usize = 0;
    while i <= last
        invariant
            i <= last,
            last == hay.len() - needle.len(),
            needle.len() <= hay.len(),
            forall|m: int| 0 <= m < i ==> !occurs_at(hay@, needle@, m),
        ensures
            forall|m: int| 0 <= m <= last ==> !occurs_at(hay@, needle@, m),
        decreases last + 1 - i,
    {
        if occurs_here(hay, needle, i) {
            return true;
        }
        if i == last {
            break;
        }
        i = i + 1;
    }
    assert(!contains(hay@, needle@)) by {
        assert forall|m: int| !occurs_at(hay@, needle@, m) by {
            if 0 <= m <= last {
            }
        }
    }
    false
}

/// `str::contains` for a pattern given as text.
pub fn contains_str(hay: &Vec<char>, needle: &str) -> (b: bool)
    ensures
        b == contains(hay@, needle@),
{
    let n = chars_of(needle);
    contains_seq(hay, &n)
}

/// `str::starts_with`.
pub fn starts_with_str(s: &Vec<char>, prefix: &str) -> (b: bool)
    ensures
        b == starts_with(s@, prefix@),
{
    let p = chars_of(prefix);
    if p.len() > s.len() {
        return false;
    }
    let mut k: usize = 0;
    while k < p.len()
        invariant
            k <= p.len() <= s.len(),
            p@ == prefix@,
            forall|m: int| 0 <= m < k ==> s@[m] == p@[m],
        decreases p.len() - k,
    {
        if s[k] != p[k] {
            assert(s@.take(p.len() as int)[k as int] != p@[k as int]);
            assert(s@.take(p.len() as int) != prefix@);
            return false;
        }
        k = k + 1;
    }
    assert(s@.take(p.len() as int) =~= p@);
    true
}

/// `str::ends_with`.
pub fn ends_with_str(s: &Vec<char>, suffix: &str) -> (b: bool)
    ensures
        b == ends_with(s@, suffix@),
{
    let p = chars_of(suffix);
    if p.len() > s.len() {
        return false;
    }
    let off = s.len() - p.len();
    let mut k: usize = 0;
    while k < p.len()
        invariant
            k <= p.len() <= s.len(),
            p@ == suffix@,
            off == s.len() - p.len(),
            forall|m: int| 0 <= m < k ==> s@[off + m] == p@[m],
        decreases p.len() - k,
    {
        if s[off + k] != p[k] {
            assert(s@.skip(off as int)[k as int] != p@[k as int]);
            assert(s@.skip(off as int) != suffix@);
            return false;
        }
        k = k + 1;
    }
    assert(s@.skip(off as int) =~= p@);
    true
}

/// `str::trim`.
pub fn trim_chars(s: &Vec<char>) -> (r: Vec<char>)
    ensures
        r@ == trim(s@),
{
    let i = skip_ws(s, 0);
    proof {
        assert(s@.skip(0) =~= s@);
    }
    let mut j = s.len();
    while j > i && is_whitespace(s[j - 1])
        invariant
            i <= j <= s.len(),
            forall|k: int| j <= k < s.len() ==> is_ws(#[trigger] s@[k]),
        decreases j,
    {
        j = j - 1;
    }
    proof {
        let t = trim_start(s@);
        assert(t =~= s@.skip(i as int));
        assert forall|k: int| t.len() - (s.len() - j) <= k < t.len() implies is_ws(
            #[trigger] t[k],
        ) by {
            assert(t[k] == s@[k + i]);
        }
        if j > i {
            assert(t[t.len() - (s.len() - j) - 1] == s@[j - 1]);
        }
        lemma_suffix_ws_len_at(t, (s.len() - j) as int);
    }
    slice_vec(s, i, j)
}

/// `str::strip_prefix`.
pub fn strip_prefix_str(s: &Vec<char>, prefix: &str) -> (r: Option<Vec<char>>)
    ensures
        r is Some <==> starts_with(s@, prefix@),
        r matches Some(rest) ==> rest@ == s@.skip(prefix@.len() as int),
{
    if starts_with_str(s, prefix) {
        let n = chars_of(prefix).len();
        Some(slice_vec(s, n, s.len()))
    } else {
        None
    }
}

/// Every character of `s` in `t` at the same place.
pub fn eq_str(s: &Vec<char>, t: &str) -> (b: bool)
    ensures
        b == (s@ == t@),
{
    let u = chars_of(t);
    if u.len() != s.len() {
        return false;
    }
    let mut k: usize = 0;
    while k < u.len()
        invariant
            k <= u.len() == s.len(),
            u@ == t@,
            forall|m: int| 0 <= m < k ==> s@[m] == u@[m],
        decreases u.len() - k,
    {
        if s[k] != u[k] {
            assert(s@[k as int] != t@[k as int]);
            return false;
        }
        k = k + 1;
    }
    assert(s@ =~= u@);
    true
}

/// `str::to_lowercase`, as std defines it by the Unicode tables.
pub uninterp spec fn lowercase(s: Seq<char>) -> Seq<char>;

/// Every character is ASCII.
pub open spec fn is_ascii_text(s: Seq<char>) -> bool {
    forall|i: int| 0 <= i < s.len() ==> (#[trigger] s[i] as u32) < 128
}

/// Calls `str::to_lowercase`; the result is the Unicode lowercase mapping of
/// the argument, left unstated beyond that name, except on ASCII text, where
/// std's documentation gives it: `A`–`Z` become `a`–`z` and every other
/// character stays.
#[verifier::external_body]
fn to_lowercase_string(s: &str) -> (r: String)
    ensures
        r@ == lowercase(s@),
        is_ascii_text(s@) ==> r@ == ascii_lowercase(s@),
{
    s.to_lowercase()
}

/// The lowercase form of a text: on ASCII text, `A`–`Z` mapped to `a`–`z`;
/// elsewhere the Unicode lowercase mapping.
pub open spec fn lower(s: Seq<char>) -> Seq<char> {
    if is_ascii_text(s) {
        ascii_lowercase(s)
    } else {
        lowercase(s)
    }
}

/// The lowercase form (`str::to_lowercase`) of a run of characters.
pub fn lowercase_chars(s: &Vec<char>) -> (r: Vec<char>)
    ensures
        r@ == lower(s@),
        r@ == lowercase(s@),
        is_ascii_text(s@) ==> r@ == ascii_lowercase(s@),
{
    let text = string_of(s.as_slice());
    let lower = to_lowercase_string(text.as_str());
    chars_of(lower.as_str())
}

pub open spec fn strs_view(v: Seq<&str>) -> Seq<Seq<char>> {
    Seq::new(v.len(), |i: int| v[i]@)
}

/// Some pattern occurs in the lowercase form of `line`.
pub open spec fn mentions_any(line: Seq<char>, pats: Seq<Seq<char>>) -> bool {
    exists|i: int| 0 <= i < pats.len() && contains(lower(line), #[trigger] pats[i])
}

/// How many of the lines mention some pattern (compared in lowercase).
pub open spec fn count_mentioning(ls: Seq<Seq<char>>, pats: Seq<Seq<char>>) -> nat
    decreases ls.len(),
{
    if ls.len() == 0 {
        0
    } else {
        count_mentioning(ls.drop_last(), pats) + if mentions_any(ls.last(), pats) {
            1nat
        } else {
            0nat
        }
    }
}

/// Whether the lowercase form of `line` contains one of the patterns.
pub fn mentions(line: &Vec<char>, pats: &Vec<&str>) -> (b: bool)
    ensures
        b == mentions_any(line@, strs_view(pats@)),
{
    let low = lowercase_chars(line);
    let mut k: usize = 0;
    while k < pats.len()
        invariant
            k <= pats@.len(),
            low@ == lower(line@),
            forall|j: int| 0 <= j < k ==> !contains(low@, #[trigger] strs_view(pats@)[j]),
        decreases pats@.len() - k,
    {
        if contains_str(&low, pats[k]) {
            assert(contains(lower(line@), strs_view(pats@)[k as int]));
            return true;
        }
        k = k + 1;
    }
    false
}

/// How many lines of `text` mention one of the patterns, compared in
/// lowercase.
pub fn count_lines_mentioning(text: &str, pats: &Vec<&str>) -> (n: usize)
    ensures
        n == count_mentioning(lines(text@), strs_view(pats@)),
{
    let chars = chars_of(text);
    let ls = split_lines(&chars);
    let mut n: usize = 0;
    let mut i: usize = 0;
    while i < ls.len()
        invariant
            i <= ls@.len(),
            n <= i,
            views(ls@) == lines(text@),
            n == count_mentioning(views(ls@).take(i as int), strs_view(pats@)),
        decreases ls@.len() - i,
    {
        let hit = mentions(&ls[i], pats);
        proof {
            let t = views(ls@).take(i + 1);
            assert(t.drop_last() =~= views(ls@).take(i as int));
            assert(t.last() == ls@[i as int]@);
        }
        if hit {
            n = n + 1;
        }
        i = i + 1;
    }
    assert(views(ls@).take(ls@.len() as int) =~= views(ls@));
    n
}

/// ASCII lowercase of one character (`char::to_ascii_lowercase`).
pub open spec fn ascii_lower(c: char) -> char {
    if 'A' <= c <= 'Z' {
        ((c as u32) + 32) as char
    } else {
        c
    }
}

pub open spec fn ascii_lowercase(s: Seq<char>) -> Seq<char> {
    Seq::new(s.len(), |i: int| ascii_lower(s[i]))
}

/// `str::to_ascii_lowercase`.
pub fn ascii_lowercase_chars(s: &Vec<char>) -> (r: Vec<char>)
    ensures
        r@ == ascii_lowercase(s@),
{
    let mut r: Vec<char> = Vec::new();
    let mut k: usize = 0;
    while k < s.len()
        invariant
            k <= s.len(),
            r@ == ascii_lowercase(s@).take(k as int),
        decreases s.len() - k,
    {
        let c = s[k];
        let l = if 'A' <= c && c <= 'Z' {
            char_from_ascii_shift(c)
        } else {
            c
        };
        r.push(l);
        assert(r@ =~= ascii_lowercase(s@).take(k + 1));
        k = k + 1;
    }
    assert(r@ =~= ascii_lowercase(s@));
    r
}

fn char_from_ascii_shift(c: char) -> (r: char)
    requires
        'A' <= c <= 'Z',
    ensures
        r == ascii_lower(c),
{
    let u = (c as u32) + 32;
    let b = u as u8;
    b as char
}


/// `str::find` from index `i` on: the first place at or after `i` where
/// `needle` occurs in `hay`.
pub open spec fn find_from(hay: Seq<char>, needle: Seq<char>, i: int) -> Option<int>
    decreases hay.len() + 1 - i,
{
    if i < 0 || i + needle.len() > hay.len() {
        None
    } else if occurs_at(hay, needle, i) {
        Some(i)
    } else {
        find_from(hay, needle, i + 1)
    }
}

/// `str::find` for a string pattern.
pub fn find_str(hay: &Vec<char>, needle: &str) -> (r: Option<usize>)
    ensures
        r matches Some(i) ==> find_from(hay@, needle@, 0) == Some(i as int),
        r is None ==> find_from(hay@, needle@, 0) is None,
{
    let n = chars_of(needle);
    if n.len() == 0 {
        assert(hay@.subrange(0, 0) =~= needle@);
        return Some(0);
    }
    if n.len() > hay.len() {
        return None;
    }
    let mut i: usize = 0;
    while i <= hay.len() - n.len()
        invariant
            n@ == needle@,
            1 <= n.len() <= hay.len(),
            i <= hay.len() - n.len() + 1,
            find_from(hay@, needle@, 0) == find_from(hay@, needle@, i as int),
        decreases hay.len() + 1 - i,
    {
        if occurs_here(hay, &n, i) {
            return Some(i);
        }
        i = i + 1;
    }
    None
}


pub proof fn lemma_find_from(hay: Seq<char>, needle: Seq<char>, j: int)
    ensures
        find_from(hay, needle, j) matches Some(i) ==> j <= i && occurs_at(hay, needle, i),
    decreases hay.len() + 1 - j,
{
    if !(j < 0 || j + needle.len() > hay.len()) && !occurs_at(hay, needle, j) {
        lemma_find_from(hay, needle, j + 1);
    }
}

/// `parts.join(sep)`.
pub open spec fn join(parts: Seq<Seq<char>>, sep: Seq<char>) -> Seq<char>
    decreases parts.len(),
{
    if parts.len() == 0 {
        seq![]
    } else if parts.len() == 1 {
        parts[0]
    } else {
        join(parts.drop_last(), sep) + sep + parts.last()
    }
}

/// `parts.join(sep)` on owned strings.
pub fn join_strings(parts: &Vec<String>, sep: &str) -> (r: String)
    ensures
        r@ == join(texts(parts@), sep@),
{
    let ghost all = texts(parts@);
    let mut out: Vec<char> = Vec::new();
    let mut i: usize = 0;
    while i < parts.len()
        invariant
            i <= parts.len(),
            all == texts(parts@),
            out@ == join(all.take(i as int), sep@),
        decreases parts.len() - i,
    {
        let ghost before = out@;
        if i > 0 {
            push_str(&mut out, sep);
        }
        let p = chars_of(parts[i].as_str());
        push_all(&mut out, &p);
        proof {
            assert(all.take(i + 1).drop_last() =~= all.take(i as int));
            assert(all.take(i + 1).last() == parts@[i as int]@);
            if i == 0 {
                assert(out@ =~= all.take(1)[0]);
            } else {
                assert(out@ =~= before + sep@ + parts@[i as int]@);
            }
        }
        i = i + 1;
    }
    assert(all.take(parts.len() as int) =~= all);
    string_of(out.as_slice())
}

/// Texts in ascending order, as `String` orders them.
pub open spec fn ascending(s: Seq<Seq<char>>) -> bool {
    forall|a: int, b: int| 0 <= a < b < s.len() ==> !str_less(#[trigger] s[b], #[trigger] s[a])
}

/// Put `x` into the ascending `out`, after every text not above it.
pub fn insert_sorted(out: &mut Vec<String>, x: String)
    requires
        ascending(texts(old(out)@)),
    ensures
        ascending(texts(final(out)@)),
        texts(final(out)@).to_multiset() == texts(old(out)@).to_multiset().insert(x@),
{
    let ghost before = texts(out@);
    let mut p: usize = 0;
    while p < out.len() && !str_lt(x.as_str(), out[p].as_str())
        invariant
            p <= out@.len(),
            before == texts(out@),
            ascending(before),
            forall|a: int| 0 <= a < p ==> !str_less(x@, #[trigger] before[a]),
        decreases out@.len() - p,
    {
        p = p + 1;
    }
    let ghost xv = x@;
    out.insert(p, x);
    proof {
        let after = texts(out@);
        assert(after =~= before.insert(p as int, xv));
        assert forall|a: int, b: int| 0 <= a < b < after.len() implies !str_less(
            #[trigger] after[b],
            #[trigger] after[a],
        ) by {
            if b < p {
                assert(after[a] == before[a] && after[b] == before[b]);
            } else if b == p {
                assert(after[a] == before[a]);
            } else if a == p {
                assert(after[b] == before[b - 1]);
                assert(str_less(xv, before[p as int]));
                if str_less(before[b - 1], xv) {
                    if b - 1 == p {
                        lemma_str_less_trichotomy(xv, before[p as int]);
                    } else {
                        lemma_str_less_transitive(before[b - 1], xv, before[p as int]);
                    }
                }
            } else if a < p {
                assert(after[a] == before[a] && after[b] == before[b - 1]);
            } else {
                assert(after[a] == before[a - 1] && after[b] == before[b - 1]);
            }
        }
        vstd::seq_lib::to_multiset_insert(before, p as int, xv);
    }
}

} // verus!
