//! Link previews: the metadata record, and the scanner that finds the
//! URLs inside a message text.

use vstd::prelude::*;

verus! {

/// Link preview metadata.
#[derive(Debug, Clone)]
pub struct LinkPreview {
    pub url: String,
    pub title: Option<String>,
    pub description: Option<String>,
    pub image_url: Option<String>,
    pub site_name: Option<String>,
    pub error: Option<String>,
}

impl LinkPreview {
    /// An error result: the URL and the message, nothing else.
    pub fn error(url: String, error: String) -> (r: Self)
        ensures
            r.url == url,
            r.error matches Some(e) && e == error,
            r.title is None,
            r.description is None,
            r.image_url is None,
            r.site_name is None,
    {
        LinkPreview {
            url,
            title: None,
            description: None,
            image_url: None,
            site_name: None,
            error: Some(error),
        }
    }
}

// ---------------------------------------------------------------------------
// URL extraction.
// ---------------------------------------------------------------------------

/// Whether a character can stand inside a URL: anything but
/// whitespace, control characters, and the usual bracketing and
/// quoting delimiters.
pub open spec fn url_char(c: char) -> bool {
    !((c as u32) <= 0x1f || c == ' ' || (c as u32) == 0x7f || c == '<' || c == '>' || c == '['
        || c == ']' || c == '(' || c == ')' || c == '{' || c == '}' || c == '|' || c == '\\' || c
        == '^' || c == '`')
}

/// Whether a trailing character is likely punctuation after the URL
/// rather than part of it.
pub open spec fn trim_char(c: char) -> bool {
    c == '.' || c == ',' || c == '!' || c == '?' || c == ')' || c == ']' || c == '}' || c == ';'
        || c == ':' || c == '\'' || c == '"'
}

/// Whether `p` occurs at position `i` of `s`.
pub open spec fn starts_with_at(s: Seq<char>, i: int, p: Seq<char>) -> bool {
    i + p.len() <= s.len() && s.subrange(i, i + p.len()) == p
}

/// The characters of the secure URL scheme.
pub open spec fn https_prefix() -> Seq<char> {
    seq!['h', 't', 't', 'p', 's', ':', '/', '/']
}

/// The characters of the plain URL scheme.
pub open spec fn http_prefix() -> Seq<char> {
    seq!['h', 't', 't', 'p', ':', '/', '/']
}

/// The length of the URL scheme prefix at `i`: the secure one first,
/// the plain one otherwise, nothing else starts a URL.
pub open spec fn url_prefix_len_at(s: Seq<char>, i: int) -> int {
    if starts_with_at(s, i, https_prefix()) {
        8
    } else if starts_with_at(s, i, http_prefix()) {
        7
    } else {
        0
    }
}

/// The first index at or after `j` that no longer holds a URL
/// character.
pub open spec fn run_end(s: Seq<char>, j: int) -> int
    decreases s.len() - j,
    when 0 <= j <= s.len()
{
    if j < s.len() && url_char(s[j]) {
        run_end(s, j + 1)
    } else {
        j
    }
}

/// The run end stays within bounds.
pub proof fn lemma_run_end_bounds(s: Seq<char>, j: int)
    requires
        0 <= j <= s.len(),
    ensures
        j <= run_end(s, j) <= s.len(),
    decreases s.len() - j,
{
    if j < s.len() && url_char(s[j]) {
        lemma_run_end_bounds(s, j + 1);
    }
}

/// How much of a raw match remains once trailing punctuation is
/// trimmed.
pub open spec fn trim_len(u: Seq<char>) -> int
    decreases u.len(),
{
    if u.len() > 0 && trim_char(u.last()) {
        trim_len(u.drop_last())
    } else {
        u.len() as int
    }
}

/// The URLs found from position `i` on: at each scheme prefix, the
/// maximal run of URL characters (it must reach past the scheme),
/// trailing punctuation trimmed; the scan resumes after the run.
pub open spec fn spec_extract_urls_from(s: Seq<char>, i: int) -> Seq<Seq<char>>
    decreases s.len() - i,
    when 0 <= i <= s.len()
    via spec_extract_urls_dec
{
    if i >= s.len() {
        Seq::empty()
    } else {
        let p = url_prefix_len_at(s, i);
        if p > 0 && run_end(s, i + p) > i + p {
            let e = run_end(s, i + p);
            let u = s.subrange(i, e);
            seq![u.take(trim_len(u))] + spec_extract_urls_from(s, e)
        } else {
            spec_extract_urls_from(s, i + 1)
        }
    }
}

#[via_fn]
proof fn spec_extract_urls_dec(s: Seq<char>, i: int) {
    if 0 <= i < s.len() {
        let p = url_prefix_len_at(s, i);
        if p > 0 {
            assert(i + p <= s.len());
            lemma_run_end_bounds(s, i + p);
        }
    }
}

/// The URLs of a whole text.
pub open spec fn spec_extract_urls(s: Seq<char>) -> Seq<Seq<char>> {
    spec_extract_urls_from(s, 0)
}

/// The view of a list of strings.
pub open spec fn strings_view(v: Seq<String>) -> Seq<Seq<char>> {
    v.map_values(|x: String| x@)
}

/// Whether the characters of `lit` occur at position `i` of `s`.
fn starts_at(s: &str, i: usize, lit: &str) -> (r: bool)
    requires
        i <= s@.len(),
    ensures
        r == starts_with_at(s@, i as int, lit@),
{
    let n = lit.unicode_len();
    let sn = s.unicode_len();
    if n > sn - i {
        return false;
    }
    let mut k: usize = 0;
    while k < n
        invariant
            i + n <= s@.len(),
            s@.len() <= usize::MAX,
            n == lit@.len(),
            k <= n,
            forall|m: int| 0 <= m < k ==> s@[i + m] == lit@[m],
        decreases n - k,
    {
        if s.get_char(i + k) != lit.get_char(k) {
            proof {
                assert(s@.subrange(i as int, i + lit@.len())[k as int] == s@[i + k]);
            }
            return false;
        }
        k = k + 1;
    }
    proof {
        assert(s@.subrange(i as int, i + lit@.len()) =~= lit@);
    }
    true
}

/// Whether a character can stand inside a URL.
fn is_url_char(c: char) -> (r: bool)
    ensures
        r == url_char(c),
{
    let v = c as u32;
    !(v <= 0x1f || c == ' ' || v == 0x7f || c == '<' || c == '>' || c == '[' || c == ']' || c
        == '(' || c == ')' || c == '{' || c == '}' || c == '|' || c == '\\' || c == '^' || c
        == '`')
}

/// Whether a trailing character is trimmed.
fn is_trim_char(c: char) -> (r: bool)
    ensures
        r == trim_char(c),
{
    c == '.' || c == ',' || c == '!' || c == '?' || c == ')' || c == ']' || c == '}' || c == ';'
        || c == ':' || c == '\'' || c == '"'
}

/// The scheme prefix length at `i`.
fn url_prefix_len(s: &str, i: usize) -> (r: usize)
    requires
        i <= s@.len(),
    ensures
        r as int == url_prefix_len_at(s@, i as int),
{
    proof {
        reveal_strlit("https://");
        reveal_strlit("http://");
        assert("https://"@ =~= https_prefix());
        assert("http://"@ =~= http_prefix());
    }
    if starts_at(s, i, "https://") {
        8
    } else if starts_at(s, i, "http://") {
        7
    } else {
        0
    }
}

/// Scan to the end of the URL-character run starting at `j`.
fn run_end_from(s: &str, j: usize) -> (r: usize)
    requires
        j <= s@.len(),
    ensures
        r as int == run_end(s@, j as int),
        j <= r <= s@.len(),
    decreases s@.len() - j,
{
    proof {
        lemma_run_end_bounds(s@, j as int);
    }
    if j < s.unicode_len() {
        if is_url_char(s.get_char(j)) {
            return run_end_from(s, j + 1);
        }
    }
    j
}

/// Trim trailing punctuation from a raw match.
fn trimmed_len(u: &str) -> (r: usize)
    ensures
        r as int == trim_len(u@),
        r <= u@.len(),
{
    let mut t = u.unicode_len();
    proof {
        assert(u@.take(u@.len() as int) =~= u@);
    }
    while t > 0
        invariant
            t <= u@.len(),
            trim_len(u@) == trim_len(u@.take(t as int)),
        decreases t,
    {
        let c = u.get_char(t - 1);
        proof {
            assert(u@.take(t as int).last() == u@[t - 1]);
            assert(u@.take(t as int).drop_last() =~= u@.take(t - 1));
        }
        if !is_trim_char(c) {
            proof {
                assert(trim_len(u@.take(t as int)) == t);
            }
            return t;
        }
        t = t - 1;
    }
    proof {
        assert(u@.take(0).len() == 0);
        assert(trim_len(u@.take(0)) == 0);
    }
    0
}

/// Extract the URLs from a text, in the order they stand in it.
pub fn extract_urls(text: &str) -> (r: Vec<String>)
    ensures
        strings_view(r@) == spec_extract_urls(text@),
{
    let n = text.unicode_len();
    let mut out: Vec<String> = Vec::new();
    let mut i: usize = 0;
    proof {
        assert(strings_view(out@) =~= Seq::<Seq<char>>::empty());
        assert(Seq::<Seq<char>>::empty() + spec_extract_urls_from(text@, 0)
            =~= spec_extract_urls_from(text@, 0));
    }
    while i < n
        invariant
            n == text@.len(),
            i <= n,
            spec_extract_urls(text@) == strings_view(out@) + spec_extract_urls_from(
                text@,
                i as int,
            ),
        decreases n - i,
    {
        let ghost out0: Seq<String> = out@;
        let p = url_prefix_len(text, i);
        if p > 0 {
            proof {
                assert(i + p <= n);
            }
            let e = run_end_from(text, i + p);
            if e > i + p {
                let raw = text.substring_char(i, e);
                let tl = trimmed_len(raw);
                let url = raw.substring_char(0, tl).to_owned();
                out.push(url);
                proof {
                    let u = text@.subrange(i as int, e as int);
                    assert(raw@ == u);
                    assert(raw@.take(tl as int) == u.take(trim_len(u)));
                    assert(strings_view(out@) =~= strings_view(out0) + seq![u.take(trim_len(u))]);
                    assert(spec_extract_urls_from(text@, i as int) == seq![u.take(trim_len(u))]
                        + spec_extract_urls_from(text@, e as int));
                    assert((strings_view(out0) + seq![u.take(trim_len(u))])
                        + spec_extract_urls_from(text@, e as int) =~= strings_view(out0) + (seq![
                        u.take(trim_len(u)),
                    ] + spec_extract_urls_from(text@, e as int)));
                }
                i = e;
            } else {
                i = i + 1;
            }
        } else {
            i = i + 1;
        }
    }
    proof {
        assert(spec_extract_urls_from(text@, i as int) =~= Seq::<Seq<char>>::empty());
        assert(strings_view(out@) + Seq::<Seq<char>>::empty() =~= strings_view(out@));
    }
    out
}

} // verus!
