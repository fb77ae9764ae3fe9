//! Verified text scanning over character sequences: substring search,
//! non-overlapping left-to-right replacement, and character-class runs.
//! These are the primitives the collector's page grammar is built from.

use vstd::prelude::*;

verus! {

/// The first position at or after `from` where `pat` occurs in `s`.
pub open spec fn find_at(s: Seq<char>, pat: Seq<char>, from: int) -> Option<int>
    decreases s.len() - from,
{
    if pat.len() == 0 {
        if 0 <= from <= s.len() {
            Some(from)
        } else {
            None
        }
    } else if from < 0 || from + pat.len() > s.len() {
        None
    } else if s.subrange(from, from + pat.len()) == pat {
        Some(from)
    } else {
        find_at(s, pat, from + 1)
    }
}

/// A found occurrence lies in bounds and really is an occurrence.
pub proof fn lemma_find_at_bounds(s: Seq<char>, pat: Seq<char>, from: int)
    ensures
        find_at(s, pat, from) matches Some(i) ==> from <= i && i + pat.len() <= s.len()
            && s.subrange(i, i + pat.len()) == pat,
    decreases s.len() - from,
{
    if pat.len() == 0 {
    } else if from < 0 || from + pat.len() > s.len() {
    } else if s.subrange(from, from + pat.len()) == pat {
    } else {
        lemma_find_at_bounds(s, pat, from + 1);
    }
}

/// Whether `pat` occurs at position `i` of `s`.
pub fn match_at(s: &Vec<char>, pat: &Vec<char>, i: usize) -> (r: bool)
    requires
        i + pat@.len() <= s@.len(),
    ensures
        r == (s@.subrange(i as int, i as int + pat@.len() as int) == pat@),
{
    let n = s.len();
    let m = pat.len();
    let mut j: usize = 0;
    while j < m
        invariant
            0 <= j <= m,
            m == pat@.len(),
            n == s@.len(),
            i + m <= n,
            forall|t: int| 0 <= t < j ==> s@[i + t] == pat@[t],
        decreases m - j,
    {
        if s[i + j] != pat[j] {
            proof {
                assert(s@.subrange(i as int, i as int + m as int)[j as int] == s@[i + j]);
            }
            return false;
        }
        j = j + 1;
    }
    proof {
        assert(s@.subrange(i as int, i as int + m as int) =~= pat@);
    }
    true
}

/// The first occurrence of `pat` in `s` at or after `from`, by linear scan.
pub fn find_from(s: &Vec<char>, pat: &Vec<char>, from: usize) -> (r: Option<usize>)
    ensures
        r is Some <==> find_at(s@, pat@, from as int) is Some,
        r matches Some(i) ==> find_at(s@, pat@, from as int) == Some(i as int),
{
    let n = s.len();
    let m = pat.len();
    let mut i: usize = from;
    while i <= n && n - i >= m
        invariant
            from <= i,
            n == s@.len(),
            m == pat@.len(),
            find_at(s@, pat@, from as int) == find_at(s@, pat@, i as int),
        decreases n - i,
    {
        if match_at(s, pat, i) {
            return Some(i);
        }
        proof {
            if pat@.len() == 0 {
                assert(s@.subrange(i as int, i as int + pat@.len() as int) =~= pat@);
            }
            assert(find_at(s@, pat@, i as int) == find_at(s@, pat@, i + 1));
        }
        i = i + 1;
    }
    assert(find_at(s@, pat@, i as int) is None);
    None
}

/// The suffix of `s` from `from` on, with every occurrence of `pat`
/// replaced by `to`, scanning left to right without overlap.
pub open spec fn replace_from(s: Seq<char>, pat: Seq<char>, to: Seq<char>, from: int) -> Seq<char>
    decreases s.len() - from,
    via replace_from_decreases
{
    if pat.len() == 0 || from < 0 {
        s
    } else {
        match find_at(s, pat, from) {
            None => if from <= s.len() {
                s.subrange(from, s.len() as int)
            } else {
                Seq::empty()
            },
            Some(i) => s.subrange(from, i) + to + replace_from(s, pat, to, i + pat.len()),
        }
    }
}

#[via_fn]
proof fn replace_from_decreases(s: Seq<char>, pat: Seq<char>, to: Seq<char>, from: int) {
    lemma_find_at_bounds(s, pat, from);
}

/// `s` with every occurrence of `pat` replaced by `to`, left to right,
/// non-overlapping.
pub open spec fn replace_all(s: Seq<char>, pat: Seq<char>, to: Seq<char>) -> Seq<char> {
    replace_from(s, pat, to, 0)
}

/// Appends `s[from..to_]` to `out`.
pub fn push_range(out: &mut Vec<char>, s: &Vec<char>, from: usize, to_: usize)
    requires
        from <= to_ <= s@.len(),
    ensures
        final(out)@ == old(out)@ + s@.subrange(from as int, to_ as int),
{
    let mut j: usize = from;
    while j < to_
        invariant
            from <= j <= to_ <= s@.len(),
            out@ == old(out)@ + s@.subrange(from as int, j as int),
        decreases to_ - j,
    {
        out.push(s[j]);
        proof {
            assert(out@ =~= old(out)@ + s@.subrange(from as int, j + 1));
        }
        j = j + 1;
    }
    proof {
        assert(out@ =~= old(out)@ + s@.subrange(from as int, to_ as int));
    }
}

/// The copy of `s[from..to_]` as its own vector.
pub fn sub_vec(s: &Vec<char>, from: usize, to_: usize) -> (r: Vec<char>)
    requires
        from <= to_ <= s@.len(),
    ensures
        r@ == s@.subrange(from as int, to_ as int),
{
    let mut r: Vec<char> = Vec::new();
    push_range(&mut r, s, from, to_);
    proof {
        assert(r@ =~= s@.subrange(from as int, to_ as int));
    }
    r
}

/// Replaces every occurrence of `pat` in `s` by `to`, left to right,
/// without overlap.
pub fn replace_all_chars(s: &Vec<char>, pat: &Vec<char>, to: &Vec<char>) -> (r: Vec<char>)
    requires
        pat@.len() >= 1,
    ensures
        r@ == replace_all(s@, pat@, to@),
{
    let n = s.len();
    let mut out: Vec<char> = Vec::new();
    let mut p: usize = 0;
    loop
        invariant
            n == s@.len(),
            0 <= p <= n,
            pat@.len() >= 1,
            out@ + replace_from(s@, pat@, to@, p as int) == replace_all(s@, pat@, to@),
        decreases s@.len() - p,
    {
        match find_from(s, pat, p) {
            None => {
                push_range(&mut out, s, p, s.len());
                proof {
                    assert(out@ =~= replace_all(s@, pat@, to@));
                }
                return out;
            }
            Some(i) => {
                proof {
                    lemma_find_at_bounds(s@, pat@, p as int);
                }
                let ghost out0 = out@;
                push_range(&mut out, s, p, i);
                push_range(&mut out, to, 0, to.len());
                proof {
                    assert(to@.subrange(0, to@.len() as int) =~= to@);
                    assert(out@ =~= out0 + s@.subrange(p as int, i as int) + to@);
                    assert(replace_from(s@, pat@, to@, p as int) == s@.subrange(p as int, i as int)
                        + to@ + replace_from(s@, pat@, to@, i + pat@.len()));
                    assert(out@ + replace_from(s@, pat@, to@, i + pat@.len()) =~= out0
                        + replace_from(s@, pat@, to@, p as int));
                }
                p = i + pat.len();
            }
        }
    }
}

/// Whether `c` is an ASCII decimal digit.
pub open spec fn is_digit(c: char) -> bool {
    '0' <= c && c <= '9'
}

/// Whether `c` is an ASCII word character: a letter, a digit or an
/// underscore.
pub open spec fn is_word_char(c: char) -> bool {
    is_digit(c) || ('a' <= c && c <= 'z') || ('A' <= c && c <= 'Z') || c == '_'
}

/// The end of the run of digits (or word characters) that starts at `i`:
/// the first position at or after `i` holding no such character.
pub open spec fn run_end(s: Seq<char>, i: int, digits_only: bool) -> int
    decreases s.len() - i,
{
    if i < 0 || i >= s.len() {
        i
    } else if (if digits_only {
        is_digit(s[i])
    } else {
        is_word_char(s[i])
    }) {
        run_end(s, i + 1, digits_only)
    } else {
        i
    }
}

/// A run stays within bounds.
pub proof fn lemma_run_end_bounds(s: Seq<char>, i: int, digits_only: bool)
    requires
        0 <= i <= s.len(),
    ensures
        i <= run_end(s, i, digits_only) <= s.len(),
    decreases s.len() - i,
{
    if i < s.len() && (if digits_only {
        is_digit(s[i])
    } else {
        is_word_char(s[i])
    }) {
        lemma_run_end_bounds(s, i + 1, digits_only);
    }
}

/// The end of the digit or word run starting at `i`, by linear scan.
pub fn run_end_exec(s: &Vec<char>, i: usize, digits_only: bool) -> (r: usize)
    requires
        i <= s@.len(),
    ensures
        r == run_end(s@, i as int, digits_only),
        i <= r <= s@.len(),
{
    let n = s.len();
    let mut j: usize = i;
    loop
        invariant
            i <= j <= n,
            n == s@.len(),
            run_end(s@, i as int, digits_only) == run_end(s@, j as int, digits_only),
        decreases n - j,
    {
        if j >= n {
            return j;
        }
        let c = s[j];
        let ok: bool = if digits_only {
            '0' <= c && c <= '9'
        } else {
            ('0' <= c && c <= '9') || ('a' <= c && c <= 'z') || ('A' <= c && c <= 'Z') || c == '_'
        };
        if !ok {
            return j;
        }
        assert(run_end(s@, j as int, digits_only) == run_end(s@, j + 1, digits_only));
        j = j + 1;
    }
}

/// Relies on String::push: appends one character to the string.
#[verifier::external_body]
pub fn push_char(s: &mut String, c: char)
    ensures
        final(s)@ == old(s)@.push(c),
{
    s.push(c);
}

/// The characters of `s` as a vector.
pub fn to_char_vec(s: &str) -> (v: Vec<char>)
    ensures
        v@ == s@,
{
    let n = s.unicode_len();
    let mut v: Vec<char> = Vec::new();
    let mut i: usize = 0;
    while i < n
        invariant
            0 <= i <= n,
            n == s@.len(),
            v@ == s@.subrange(0, i as int),
        decreases n - i,
    {
        let c = s.get_char(i);
        v.push(c);
        proof {
            assert(v@ =~= s@.subrange(0, i + 1));
        }
        i = i + 1;
    }
    proof {
        assert(v@ =~= s@);
    }
    v
}

/// The string holding `v[from..to_]`.
pub fn chars_to_string(v: &Vec<char>, from: usize, to_: usize) -> (r: String)
    requires
        from <= to_ <= v@.len(),
    ensures
        r@ == v@.subrange(from as int, to_ as int),
{
    let mut r = String::new();
    let mut i: usize = from;
    while i < to_
        invariant
            from <= i <= to_ <= v@.len(),
            r@ == v@.subrange(from as int, i as int),
        decreases to_ - i,
    {
        push_char(&mut r, v[i]);
        proof {
            assert(r@ =~= v@.subrange(from as int, i + 1));
        }
        i = i + 1;
    }
    proof {
        assert(r@ =~= v@.subrange(from as int, to_ as int));
    }
    r
}

} // verus!
