//! The nhentai collector: validates gallery references, parses a listing
//! page into a title and an ordered list of full-resolution item URLs,
//! and offers the items as a lazy single-pass stream.
//!
//! The page grammar is stated here as specification functions over the
//! page's characters; the scanner is verified against them. Thumbnail
//! links are rewritten to full-resolution links by two fixed
//! substitutions: the thumbnail host prefix becomes the image host, and
//! the trailing `t` before the extension is dropped.

use vstd::prelude::*;

use crate::address::AddressBlock;
use crate::collector::{AlbumMeta, FetchError};
use crate::http_client::{CF_ADDR_BITS, GhostClient, HTTPS_PORT, PinnedAddr};
use crate::textscan::{
    find_at, find_from, is_digit, lemma_find_at_bounds, lemma_run_end_bounds, match_at,
    replace_all, replace_all_chars, run_end, run_end_exec, sub_vec, chars_to_string, to_char_vec,
};

verus! {

/// Markup that opens the album title.
pub open spec fn title_open() -> Seq<char> {
    ("<span class=\"pretty\">")@
}

/// Markup that closes the album title.
pub open spec fn title_close() -> Seq<char> {
    ("</span>")@
}

/// Literal that precedes every thumbnail link.
pub open spec fn img_prefix() -> Seq<char> {
    ("<noscript><img src=\"")@
}

/// The thumbnail host prefix a captured link must start with.
pub open spec fn cap_prefix() -> Seq<char> {
    ("https://t")@
}

/// The host and path literal after the optional thumbnail host digit.
pub open spec fn host_mid() -> Seq<char> {
    (".nhentai.net/galleries/")@
}

/// The trailing thumbnail marker before the extension.
pub open spec fn tdot() -> Seq<char> {
    ("t.")@
}

/// The full-resolution host prefix the thumbnail prefix is rewritten to.
pub open spec fn main_host() -> Seq<char> {
    ("https://i")@
}

/// What the thumbnail marker is rewritten to.
pub open spec fn dot() -> Seq<char> {
    (".")@
}

/// Whether the span `[a, b)` of `s` is free of line breaks.
pub open spec fn no_newline(s: Seq<char>, a: int, b: int) -> bool {
    forall|k: int| a <= k < b ==> s[k] != '\n'
}

/// The album title found scanning from `p`: at each opening markup, the
/// text up to the next closing markup is the title if it stays on one
/// line; a span broken by a line break does not match, and the scan
/// resumes after that opening.
pub open spec fn spec_title_from(s: Seq<char>, p: int) -> Option<Seq<char>>
    decreases s.len() - p,
    via spec_title_from_decreases
{
    if p < 0 || p > s.len() {
        None
    } else {
        match find_at(s, title_open(), p) {
            None => None,
            Some(i) => {
                let c = i + title_open().len();
                match find_at(s, title_close(), c) {
                    None => None,
                    Some(j) => if no_newline(s, c, j) {
                        Some(s.subrange(c, j))
                    } else {
                        spec_title_from(s, i + 1)
                    },
                }
            }
        }
    }
}

#[via_fn]
proof fn spec_title_from_decreases(s: Seq<char>, p: int) {
    reveal_strlit("<span class=\"pretty\">");
    lemma_find_at_bounds(s, title_open(), p);
}

/// The album title of a page, if any single-line titled span is present.
pub open spec fn spec_title(s: Seq<char>) -> Option<Seq<char>> {
    spec_title_from(s, 0)
}

/// The title, degraded to the placeholder when the markup is absent.
pub open spec fn spec_title_or_default(s: Seq<char>) -> Seq<char> {
    match spec_title(s) {
        Some(t) => t,
        None => ("No Title")@,
    }
}

/// One attempt to read a thumbnail link whose surrounding literal starts
/// at `i`: the capture runs from after the literal through host, gallery
/// number, page number, thumbnail marker and the extension's word
/// characters. Yields the position after the capture and the captured
/// link.
pub open spec fn try_image_at(s: Seq<char>, i: int) -> Option<(int, Seq<char>)> {
    let c0 = i + img_prefix().len();
    let p = c0 + cap_prefix().len();
    if !(0 <= i && p <= s.len()) {
        None
    } else if s.subrange(i, c0) != img_prefix() {
        None
    } else if s.subrange(c0, p) != cap_prefix() {
        None
    } else {
        let d: int = if p < s.len() && is_digit(s[p]) {
            1
        } else {
            0
        };
        let h = p + d;
        let q = h + host_mid().len();
        if q > s.len() {
            None
        } else if s.subrange(h, q) != host_mid() {
            None
        } else {
            let q2 = run_end(s, q, true);
            if q2 == q || q2 >= s.len() || s[q2] != '/' {
                None
            } else {
                let q3 = run_end(s, q2 + 1, true);
                if q3 == q2 + 1 || q3 + tdot().len() > s.len() || s.subrange(
                    q3,
                    q3 + tdot().len(),
                ) != tdot() {
                    None
                } else {
                    let q4 = run_end(s, q3 + tdot().len(), false);
                    if q4 == q3 + tdot().len() {
                        None
                    } else {
                        Some((q4, s.subrange(c0, q4)))
                    }
                }
            }
        }
    }
}

/// A successful capture ends after its start and within the page.
pub proof fn lemma_try_image_bounds(s: Seq<char>, i: int)
    ensures
        try_image_at(s, i) matches Some(ec) ==> i < ec.0 <= s.len(),
{
    reveal_strlit("<noscript><img src=\"");
    reveal_strlit("https://t");
    reveal_strlit(".nhentai.net/galleries/");
    reveal_strlit("t.");
    if try_image_at(s, i) is Some {
        let c0 = i + img_prefix().len();
        let p = c0 + cap_prefix().len();
        let d: int = if p < s.len() && is_digit(s[p]) {
            1
        } else {
            0
        };
        let h = p + d;
        let q = h + host_mid().len();
        lemma_run_end_bounds(s, q, true);
        let q2 = run_end(s, q, true);
        lemma_run_end_bounds(s, q2 + 1, true);
        let q3 = run_end(s, q2 + 1, true);
        lemma_run_end_bounds(s, q3 + tdot().len(), false);
    }
}

/// The captured thumbnail links of the page at or after position `p`, in
/// page order: at each occurrence of the surrounding literal a capture is
/// attempted; a success is taken and the scan resumes after it, a failure
/// resumes one position later.
pub open spec fn image_links_from(s: Seq<char>, p: int) -> Seq<Seq<char>>
    decreases s.len() - p,
    via image_links_from_decreases
{
    if p < 0 || p > s.len() {
        Seq::empty()
    } else {
        match find_at(s, img_prefix(), p) {
            None => Seq::empty(),
            Some(i) => match try_image_at(s, i) {
                Some(ec) => seq![ec.1] + image_links_from(s, ec.0),
                None => image_links_from(s, i + 1),
            },
        }
    }
}

#[via_fn]
proof fn image_links_from_decreases(s: Seq<char>, p: int) {
    reveal_strlit("<noscript><img src=\"");
    lemma_find_at_bounds(s, img_prefix(), p);
    match find_at(s, img_prefix(), p) {
        Some(i) => {
            lemma_try_image_bounds(s, i);
        }
        None => {}
    }
}

/// A captured thumbnail link rewritten to its full-resolution form.
pub open spec fn rewrite_link(c: Seq<char>) -> Seq<char> {
    replace_all(replace_all(c, cap_prefix(), main_host()), tdot(), dot())
}

/// The ordered full-resolution item URLs of a page.
pub open spec fn spec_image_urls(s: Seq<char>) -> Seq<Seq<char>> {
    image_links_from(s, 0).map_values(|c: Seq<char>| rewrite_link(c))
}

/// The first position at or after `i` that is not a slash.
pub open spec fn first_non_slash(s: Seq<char>, i: int) -> int
    decreases s.len() - i,
{
    if i < 0 || i >= s.len() {
        i
    } else if s[i] == '/' {
        first_non_slash(s, i + 1)
    } else {
        i
    }
}

/// The end of `s[..j]` once trailing slashes are dropped.
pub open spec fn last_non_slash_end(s: Seq<char>, j: int) -> int
    decreases j,
{
    if j <= 0 {
        0
    } else if s[j - 1] == '/' {
        last_non_slash_end(s, j - 1)
    } else {
        j
    }
}

/// The album identifier of a page reference: after trimming slashes from
/// both ends, the first segment must be exactly `g` and the identifier is
/// the second segment, further segments ignored. Anything else is not a
/// gallery reference.
pub open spec fn spec_album_id(path: Seq<char>) -> Option<Seq<char>> {
    let a = first_non_slash(path, 0);
    let b = last_non_slash_end(path, path.len() as int);
    if a >= b {
        None
    } else {
        let t = path.subrange(a, b);
        match find_at(t, ("/")@, 0) {
            None => None,
            Some(i) => if t.subrange(0, i) == ("g")@ {
                let rest_start = i + 1;
                let j = match find_at(t, ("/")@, rest_start) {
                    Some(j2) => j2,
                    None => t.len() as int,
                };
                Some(t.subrange(rest_start, j))
            } else {
                None
            },
        }
    }
}

/// The canonical page URL for an album identifier.
pub open spec fn spec_album_url(id: Seq<char>) -> Seq<char> {
    ("https://nhentai.net/g/")@ + id
}

/// Validates a page reference and extracts the album identifier, failing
/// with `InvalidReference` exactly when the reference does not match the
/// gallery shape.
pub fn parse_gallery_path(path: &str) -> (r: Result<String, FetchError>)
    ensures
        spec_album_id(path@) matches Some(id) ==> (r matches Ok(s) && s@ == id),
        spec_album_id(path@) is None ==> r == Err::<String, FetchError>(
            FetchError::InvalidReference,
        ),
{
    let chars = to_char_vec(path);
    let n = chars.len();
    let mut a: usize = 0;
    while a < n && chars[a] == '/'
        invariant
            0 <= a <= n,
            n == chars@.len(),
            chars@ == path@,
            first_non_slash(path@, 0) == first_non_slash(path@, a as int),
        decreases n - a,
    {
        proof {
            assert(first_non_slash(path@, a as int) == first_non_slash(path@, a + 1));
        }
        a = a + 1;
    }
    proof {
        assert(first_non_slash(path@, a as int) == a as int);
    }
    let mut b: usize = n;
    while b > 0 && chars[b - 1] == '/'
        invariant
            0 <= b <= n,
            n == chars@.len(),
            chars@ == path@,
            last_non_slash_end(path@, n as int) == last_non_slash_end(path@, b as int),
        decreases b,
    {
        proof {
            assert(last_non_slash_end(path@, b as int) == last_non_slash_end(path@, b - 1));
        }
        b = b - 1;
    }
    proof {
        assert(last_non_slash_end(path@, b as int) == b as int);
    }
    if a >= b {
        return Err(FetchError::InvalidReference);
    }
    let t = sub_vec(&chars, a, b);
    let slash = to_char_vec("/");
    let gpat = to_char_vec("g");
    proof {
        reveal_strlit("/");
        reveal_strlit("g");
    }
    match find_from(&t, &slash, 0) {
        None => Err(FetchError::InvalidReference),
        Some(i) => {
            proof {
                lemma_find_at_bounds(t@, slash@, 0);
            }
            if i == gpat.len() && match_at(&t, &gpat, 0) {
                let rest_start = i + slash.len();
                let j: usize = match find_from(&t, &slash, rest_start) {
                    Some(j2) => {
                        proof {
                            lemma_find_at_bounds(t@, slash@, rest_start as int);
                        }
                        j2
                    }
                    None => t.len(),
                };
                Ok(chars_to_string(&t, rest_start, j))
            } else {
                proof {
                    assert(t@.subrange(0, i as int) != ("g")@);
                }
                Err(FetchError::InvalidReference)
            }
        }
    }
}

/// The canonical page URL for an identifier.
pub fn album_url(id: &String) -> (r: String)
    ensures
        r@ == spec_album_url(id@),
{
    let base = String::from_str("https://nhentai.net/g/");
    base.concat(id.as_str())
}

/// Whether the span `[a, b)` holds a line break, by linear scan.
fn span_has_newline(s: &Vec<char>, a: usize, b: usize) -> (r: bool)
    requires
        a <= b <= s@.len(),
    ensures
        r == !no_newline(s@, a as int, b as int),
{
    let mut k: usize = a;
    while k < b
        invariant
            a <= k <= b <= s@.len(),
            forall|t: int| a <= t < k ==> s@[t] != '\n',
        decreases b - k,
    {
        if s[k] == '\n' {
            return true;
        }
        k = k + 1;
    }
    false
}

/// The album title of the page, if a single-line titled span is present.
fn extract_title(chars: &Vec<char>) -> (r: Option<String>)
    ensures
        r is Some <==> spec_title(chars@) is Some,
        r matches Some(t) ==> spec_title(chars@) == Some(t@),
{
    let n = chars.len();
    let open = to_char_vec("<span class=\"pretty\">");
    let close = to_char_vec("</span>");
    proof {
        reveal_strlit("<span class=\"pretty\">");
    }
    let mut p: usize = 0;
    loop
        invariant
            0 <= p <= n,
            n == chars@.len(),
            open@ == title_open(),
            close@ == title_close(),
            open@.len() >= 1,
            spec_title_from(chars@, 0) == spec_title_from(chars@, p as int),
        decreases n - p,
    {
        match find_from(chars, &open, p) {
            None => {
                return None;
            }
            Some(i) => {
                proof {
                    lemma_find_at_bounds(chars@, open@, p as int);
                }
                let c = i + open.len();
                match find_from(chars, &close, c) {
                    None => {
                        return None;
                    }
                    Some(j) => {
                        proof {
                            lemma_find_at_bounds(chars@, close@, c as int);
                        }
                        if span_has_newline(chars, c, j) {
                            proof {
                                assert(spec_title_from(chars@, p as int) == spec_title_from(
                                    chars@,
                                    i + 1,
                                ));
                            }
                            p = i + 1;
                        } else {
                            return Some(chars_to_string(chars, c, j));
                        }
                    }
                }
            }
        }
    }
}

/// One capture attempt at literal position `i`: the end of the match and
/// the capture's bounds.
fn try_image_exec(
    s: &Vec<char>,
    i: usize,
    imgp: &Vec<char>,
    capp: &Vec<char>,
    hostm: &Vec<char>,
    td: &Vec<char>,
) -> (r: Option<(usize, usize, usize)>)
    requires
        imgp@ == img_prefix(),
        capp@ == cap_prefix(),
        hostm@ == host_mid(),
        td@ == tdot(),
    ensures
        r matches Some(x) ==> try_image_at(s@, i as int) == Some(
            (x.0 as int, s@.subrange(x.1 as int, x.2 as int)),
        ) && x.1 <= x.2 <= s@.len() && x.0 <= s@.len(),
        r is None ==> try_image_at(s@, i as int) is None,
{
    let n = s.len();
    if i > n || n - i < imgp.len() {
        return None;
    }
    if n - i - imgp.len() < capp.len() {
        return None;
    }
    let c0 = i + imgp.len();
    let p = c0 + capp.len();
    if !match_at(s, imgp, i) {
        return None;
    }
    if !match_at(s, capp, c0) {
        return None;
    }
    let d: usize = if p < n && '0' <= s[p] && s[p] <= '9' {
        1
    } else {
        0
    };
    let h = p + d;
    if h > n || n - h < hostm.len() {
        return None;
    }
    if !match_at(s, hostm, h) {
        return None;
    }
    let q = h + hostm.len();
    let q2 = run_end_exec(s, q, true);
    if q2 == q || q2 >= n {
        return None;
    }
    if s[q2] != '/' {
        return None;
    }
    let q3 = run_end_exec(s, q2 + 1, true);
    if q3 == q2 + 1 {
        return None;
    }
    if q3 > n || n - q3 < td.len() {
        return None;
    }
    if !match_at(s, td, q3) {
        return None;
    }
    let q4 = run_end_exec(s, q3 + td.len(), false);
    if q4 == q3 + td.len() {
        return None;
    }
    Some((q4, c0, q4))
}

/// The captured thumbnail links of the page, in page order.
fn extract_image_links(s: &Vec<char>) -> (r: Vec<Vec<char>>)
    ensures
        r@.map_values(|v: Vec<char>| v@) == image_links_from(s@, 0),
{
    let imgp = to_char_vec("<noscript><img src=\"");
    let capp = to_char_vec("https://t");
    let hostm = to_char_vec(".nhentai.net/galleries/");
    let td = to_char_vec("t.");
    let n = s.len();
    let mut out: Vec<Vec<char>> = Vec::new();
    let mut p: usize = 0;
    loop
        invariant
            0 <= p <= n,
            n == s@.len(),
            imgp@ == img_prefix(),
            capp@ == cap_prefix(),
            hostm@ == host_mid(),
            td@ == tdot(),
            out@.map_values(|v: Vec<char>| v@) + image_links_from(s@, p as int)
                == image_links_from(s@, 0),
        decreases n - p,
    {
        match find_from(s, &imgp, p) {
            None => {
                proof {
                    assert(image_links_from(s@, p as int) =~= Seq::<Seq<char>>::empty());
                    assert(out@.map_values(|v: Vec<char>| v@) =~= image_links_from(s@, 0));
                }
                return out;
            }
            Some(i) => {
                proof {
                    lemma_find_at_bounds(s@, imgp@, p as int);
                    reveal_strlit("<noscript><img src=\"");
                }
                match try_image_exec(s, i, &imgp, &capp, &hostm, &td) {
                    Some((e, cs, ce)) => {
                        proof {
                            lemma_try_image_bounds(s@, i as int);
                        }
                        let cap = sub_vec(s, cs, ce);
                        let ghost out0 = out@;
                        out.push(cap);
                        proof {
                            assert(image_links_from(s@, p as int) == seq![
                                s@.subrange(cs as int, ce as int),
                            ] + image_links_from(s@, e as int));
                            assert(out@.map_values(|v: Vec<char>| v@) =~= out0.map_values(
                                |v: Vec<char>| v@,
                            ).push(s@.subrange(cs as int, ce as int)));
                            assert(out@.map_values(|v: Vec<char>| v@) + image_links_from(
                                s@,
                                e as int,
                            ) =~= out0.map_values(|v: Vec<char>| v@) + image_links_from(
                                s@,
                                p as int,
                            ));
                        }
                        p = e;
                    }
                    None => {
                        proof {
                            assert(image_links_from(s@, p as int) == image_links_from(s@, i + 1));
                        }
                        p = i + 1;
                    }
                }
            }
        }
    }
}

/// Rewrites each captured link to its full-resolution form, as owned
/// strings.
fn rewrite_links(links: &Vec<Vec<char>>) -> (r: Vec<String>)
    ensures
        r@.len() == links@.len(),
        forall|j: int| 0 <= j < links@.len() ==> (#[trigger] r@[j])@ == rewrite_link(links@[j]@),
{
    let from1 = to_char_vec("https://t");
    let to1 = to_char_vec("https://i");
    let from2 = to_char_vec("t.");
    let to2 = to_char_vec(".");
    proof {
        reveal_strlit("https://t");
        reveal_strlit("t.");
    }
    let mut r: Vec<String> = Vec::new();
    let mut i: usize = 0;
    while i < links.len()
        invariant
            0 <= i <= links@.len(),
            from1@ == cap_prefix(),
            to1@ == main_host(),
            from2@ == tdot(),
            to2@ == dot(),
            from1@.len() >= 1,
            from2@.len() >= 1,
            r@.len() == i,
            forall|j: int| 0 <= j < i ==> (#[trigger] r@[j])@ == rewrite_link(links@[j]@),
        decreases links@.len() - i,
    {
        let a = replace_all_chars(&links[i], &from1, &to1);
        let b2 = replace_all_chars(&a, &from2, &to2);
        let s2 = chars_to_string(&b2, 0, b2.len());
        proof {
            assert(b2@.subrange(0, b2@.len() as int) =~= b2@);
        }
        r.push(s2);
        i = i + 1;
    }
    r
}

/// Parses a fetched listing page: the title, degraded to the placeholder
/// when its markup is absent, and the ordered full-resolution item URLs.
/// Zero extractable items is not an error.
pub fn parse_album_page(body: &str) -> (r: (String, Vec<String>))
    ensures
        r.0@ == spec_title_or_default(body@),
        r.1@.len() == spec_image_urls(body@).len(),
        forall|j: int|
            0 <= j < r.1@.len() ==> (#[trigger] r.1@[j])@ == spec_image_urls(body@)[j],
{
    let chars = to_char_vec(body);
    let title = match extract_title(&chars) {
        Some(t) => t,
        None => String::from_str("No Title"),
    };
    let links = extract_image_links(&chars);
    let urls = rewrite_links(&links);
    proof {
        assert(forall|j: int|
            0 <= j < urls@.len() ==> (#[trigger] urls@[j])@ == spec_image_urls(body@)[j]);
    }
    (title, urls)
}

/// The hostnames the collector pins to the CDN front door.
pub open spec fn nh_domain_views() -> Seq<Seq<char>> {
    seq![
        ("nhentai.net")@,
        ("i.nhentai.net")@,
        ("i2.nhentai.net")@,
        ("i3.nhentai.net")@,
        ("i4.nhentai.net")@,
        ("i5.nhentai.net")@,
        ("i6.nhentai.net")@,
        ("i7.nhentai.net")@,
        ("i8.nhentai.net")@,
        ("i9.nhentai.net")@,
    ]
}

/// The pinned hostname list, as owned strings.
pub fn nh_domains() -> (r: Vec<String>)
    ensures
        r@.len() == nh_domain_views().len(),
        forall|j: int|
            0 <= j < r@.len() ==> (#[trigger] r@[j])@ == nh_domain_views()[j],
{
    let mut v: Vec<String> = Vec::new();
    v.push(String::from_str("nhentai.net"));
    v.push(String::from_str("i.nhentai.net"));
    v.push(String::from_str("i2.nhentai.net"));
    v.push(String::from_str("i3.nhentai.net"));
    v.push(String::from_str("i4.nhentai.net"));
    v.push(String::from_str("i5.nhentai.net"));
    v.push(String::from_str("i6.nhentai.net"));
    v.push(String::from_str("i7.nhentai.net"));
    v.push(String::from_str("i8.nhentai.net"));
    v.push(String::from_str("i9.nhentai.net"));
    v
}

/// The nhentai collector: a transport with the CDN pins applied.
pub struct NHCollector {
    pub client: GhostClient,
}

/// Lazy, finite, single-pass stream of the album's items: each call to
/// `next` offers one not-yet-started fetch operation, in page order. No
/// transition leads back; re-iteration requires a fresh fetch.
pub struct NHImageStream {
    pub client: GhostClient,
    pub image_urls: Vec<String>,
    pub cursor: usize,
}

impl NHCollector {
    /// Stable source identifier.
    pub fn name() -> (r: &'static str)
        ensures
            r@ == ("nhentai")@,
    {
        "nhentai"
    }

    /// A collector over a transport with the CDN pins; with a block the
    /// transport rotates its source address inside it.
    pub fn new(prefix: Option<AddressBlock>) -> (r: Result<NHCollector, FetchError>)
        requires
            prefix matches Some(b) ==> b.wf(),
        ensures
            r matches Ok(c) ==> c.client.wf() && c.client.prefix == prefix && c.client.headers
                is None && c.client.mapping@.len() == nh_domain_views().len() && (forall|j: int|
                0 <= j < nh_domain_views().len() ==> (#[trigger] c.client.mapping@[j]).0@
                    == nh_domain_views()[j] && c.client.mapping@[j].1 == (PinnedAddr {
                    addr: CF_ADDR_BITS,
                    port: HTTPS_PORT,
                })),
            r matches Err(e) ==> e == FetchError::Configuration,
    {
        let domains = nh_domains();
        let builder = GhostClient::builder().with_cf_resolve(&domains);
        proof {
            assert(builder.mapping@.len() == nh_domain_views().len());
            assert forall|j: int| 0 <= j < nh_domain_views().len() implies (#[trigger] builder.mapping@[j]).0@
                == nh_domain_views()[j] && builder.mapping@[j].1 == (PinnedAddr {
                addr: CF_ADDR_BITS,
                port: HTTPS_PORT,
            }) by {
                assert(builder.mapping@[0 + j].0@ == domains@[j]@);
                assert(domains@[j]@ == nh_domain_views()[j]);
            }
        }
        match builder.build(prefix) {
            Ok(client) => Ok(NHCollector { client }),
            Err(_) => Err(FetchError::Configuration),
        }
    }

    /// Validates the page reference and prepares the page-level fetch: the
    /// canonical page URL and a freshly rotated transport, through which
    /// the driver issues exactly one page GET. An invalid reference fails
    /// immediately, before any network work.
    pub fn fetch_plan(&self, path: &str) -> (r: Result<(String, GhostClient), FetchError>)
        requires
            self.client.wf(),
        ensures
            spec_album_id(path@) is None <==> r == Err::<(String, GhostClient), FetchError>(
                FetchError::InvalidReference,
            ),
            r matches Ok(p) ==> spec_album_id(path@) is Some && p.0@ == spec_album_url(
                spec_album_id(path@).unwrap(),
            ) && p.1.wf() && p.1.prefix == self.client.prefix,
            spec_album_id(path@) is Some ==> (r is Ok || r == Err::<
                (String, GhostClient),
                FetchError,
            >(FetchError::Configuration)),
    {
        match parse_gallery_path(path) {
            Err(e) => Err(e),
            Ok(id) => {
                let url = album_url(&id);
                match self.client.clone() {
                    Ok(c) => Ok((url, c)),
                    Err(_) => Err(FetchError::Configuration),
                }
            }
        }
    }

    /// Turns the fetched page body into album metadata and the lazy item
    /// stream, handing the stream the transport. Title parse failure
    /// degrades to the placeholder; zero extractable items yields an
    /// immediately exhausted stream, not an error.
    pub fn assemble(url: String, body: &str, client: GhostClient) -> (r: (AlbumMeta, NHImageStream))
        requires
            client.wf(),
        ensures
            r.0.link@ == url@,
            r.0.name@ == spec_title_or_default(body@),
            r.0.class is None,
            r.0.description is None,
            r.0.authors is None,
            r.0.tags is None,
            r.1.wf(),
            r.1.cursor == 0,
            r.1.urls_view().len() == spec_image_urls(body@).len(),
            forall|j: int|
                0 <= j < r.1.urls_view().len() ==> r.1.urls_view()[j] == spec_image_urls(
                    body@,
                )[j],
            r.1.client == client,
    {
        let (name, image_urls) = parse_album_page(body);
        let meta = AlbumMeta {
            link: url,
            name,
            class: None,
            description: None,
            authors: None,
            tags: None,
        };
        (meta, NHImageStream { client, image_urls, cursor: 0 })
    }
}

impl NHImageStream {
    /// The stream is well formed while its cursor stays within the list.
    pub open spec fn wf(&self) -> bool {
        self.cursor <= self.image_urls@.len() && self.client.wf()
    }

    /// The item URLs the stream offers, in page order.
    pub open spec fn urls_view(&self) -> Seq<Seq<char>> {
        self.image_urls@.map_values(|s: String| s@)
    }

    /// Offers the fetch operation for the next item — its resolved URL
    /// and a freshly rotated transport — or `None` when the stream is
    /// exhausted. Items are offered in page order, one per call, and no
    /// item's network work starts before it is offered. What became of
    /// items offered earlier has no bearing on later ones: only the
    /// cursor advances.
    pub fn next(&mut self) -> (r: Result<Option<(String, GhostClient)>, FetchError>)
        requires
            old(self).wf(),
        ensures
            final(self).wf(),
            final(self).image_urls@ == old(self).image_urls@,
            final(self).client == old(self).client,
            old(self).cursor >= old(self).image_urls@.len() ==> r == Ok::<
                Option<(String, GhostClient)>,
                FetchError,
            >(None) && final(self).cursor == old(self).cursor,
            old(self).cursor < old(self).image_urls@.len() ==> (r matches Ok(p) ==> (
            p matches Some(pair) && pair.0@ == old(self).urls_view()[old(self).cursor as int]
                && pair.1.wf() && pair.1.prefix == old(self).client.prefix && final(self).cursor
                == old(self).cursor + 1)),
            old(self).cursor < old(self).image_urls@.len() ==> (r matches Err(e) ==> e
                == FetchError::Configuration && final(self).cursor == old(self).cursor),
    {
        if self.cursor >= self.image_urls.len() {
            return Ok(None);
        }
        match self.client.clone() {
            Ok(c) => {
                let url = self.image_urls[self.cursor].clone();
                self.cursor = self.cursor + 1;
                Ok(Some((url, c)))
            }
            Err(_) => Err(FetchError::Configuration),
        }
    }

    /// Exactly how many items are still to be offered.
    pub fn size_hint(&self) -> (r: (usize, Option<usize>))
        requires
            self.wf(),
        ensures
            r.0 == self.image_urls@.len() - self.cursor,
            r.1 == Some(r.0),
    {
        let rem = self.image_urls.len() - self.cursor;
        (rem, Some(rem))
    }
}

} // verus!
