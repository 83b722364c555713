//! Capture geolocation from FFmpeg metadata dumps: where ISO 6709 values
//! sit in the text, and how one splits into latitude, longitude and altitude.
//!
//! Turning the tokens into degrees (decimal, degree-minute and
//! degree-minute-second forms) and the EXIF path are floating-point work
//! done outside this crate.

use vstd::prelude::*;

use crate::text::{
    char_is_digit, chars_of, contains, contains_str, is_ascii_ws, is_digit, lines, lines_exec,
    lower_ascii, lower_ascii_vec, slice_of, split_once, split_once_exec, string_from, trim,
    trim_exec,
};

verus! {

broadcast use vstd::string::group_string_axioms;

/// Which metadata family produced a location fix.
#[derive(Debug, Clone, Copy, PartialEq, Eq, Structural)]
pub enum GeoSource {
    Quicktime,
    Ffmetadata,
    Exif,
}

// ---------------------------------------------------------------------------
// ISO 6709 tokens
// ---------------------------------------------------------------------------

pub open spec fn is_sign(c: char) -> bool {
    c == '+' || c == '-'
}

/// First index at or after `i` holding `+` or `-`, or the length.
pub open spec fn sign_from(s: Seq<char>, i: int) -> int
    decreases s.len() - i,
{
    if 0 <= i < s.len() {
        if is_sign(s[i]) {
            i
        } else {
            sign_from(s, i + 1)
        }
    } else {
        s.len() as int
    }
}

proof fn lemma_sign_from(s: Seq<char>, i: int)
    requires
        0 <= i <= s.len(),
    ensures
        i <= sign_from(s, i) <= s.len(),
    decreases s.len() - i,
{
    if i < s.len() && !is_sign(s[i]) {
        lemma_sign_from(s, i + 1);
    }
}

fn sign_from_exec(s: &[char], start: usize) -> (r: usize)
    requires
        start <= s@.len(),
    ensures
        r == sign_from(s@, start as int),
{
    let mut i = start;
    while i < s.len() && s[i] != '+' && s[i] != '-'
        invariant
            start <= i <= s@.len(),
            sign_from(s@, i as int) == sign_from(s@, start as int),
        decreases s.len() - i,
    {
        i += 1;
    }
    i
}

/// One signed number at the front of `input` (after trimming): the sign and
/// everything up to the next sign, and what follows.
pub open spec fn next_signed(input: Seq<char>) -> Option<(Seq<char>, Seq<char>)> {
    let s = trim(input);
    if s.len() == 0 || !is_sign(s[0]) {
        None
    } else {
        let end = sign_from(s, 1);
        if end <= 1 {
            None
        } else {
            Some((s.take(end), s.skip(end)))
        }
    }
}

fn next_signed_exec(input: &[char]) -> (r: Option<(Vec<char>, Vec<char>)>)
    ensures
        match next_signed(input@) {
            Some((tok, rest)) => r matches Some((t, q)) && t@ == tok && q@ == rest,
            None => r is None,
        },
{
    let s = trim_exec(input);
    if s.len() == 0 || (s[0] != '+' && s[0] != '-') {
        return None;
    }
    let end = sign_from_exec(&s, 1);
    proof {
        lemma_sign_from(s@, 1);
    }
    if end <= 1 {
        return None;
    }
    let tok = slice_of(&s, 0, end);
    let rest = slice_of(&s, end, s.len());
    assert(tok@ =~= s@.take(end as int));
    assert(rest@ =~= s@.skip(end as int));
    Some((tok, rest))
}

/// `s` without leading copies of `c`.
pub open spec fn strip_leading(s: Seq<char>, c: char) -> Seq<char>
    decreases s.len(),
{
    if s.len() > 0 && s[0] == c {
        strip_leading(s.drop_first(), c)
    } else {
        s
    }
}

/// `s` without trailing copies of `c`.
pub open spec fn strip_trailing(s: Seq<char>, c: char) -> Seq<char>
    decreases s.len(),
{
    if s.len() > 0 && s.last() == c {
        strip_trailing(s.drop_last(), c)
    } else {
        s
    }
}

fn strip_ends(s: &[char], c: char, front: bool, back: bool) -> (r: Vec<char>)
    ensures
        r@ == {
            let a = if front {
                strip_leading(s@, c)
            } else {
                s@
            };
            if back {
                strip_trailing(a, c)
            } else {
                a
            }
        },
{
    let ghost a = if front {
        strip_leading(s@, c)
    } else {
        s@
    };
    let mut lo: usize = 0;
    assert(s@.skip(0) =~= s@);
    if front {
        while lo < s.len() && s[lo] == c
            invariant
                lo <= s@.len(),
                strip_leading(s@.skip(lo as int), c) == strip_leading(s@, c),
            decreases s.len() - lo,
        {
            assert(s@.skip(lo as int).drop_first() =~= s@.skip(lo + 1));
            lo += 1;
        }
    }
    assert(s@.skip(lo as int) == a);
    let mut hi: usize = s.len();
    assert(s@.subrange(lo as int, hi as int) =~= s@.skip(lo as int));
    if back {
        while hi > lo && s[hi - 1] == c
            invariant
                lo <= hi <= s@.len(),
                strip_trailing(s@.subrange(lo as int, hi as int), c) == strip_trailing(a, c),
            decreases hi,
        {
            assert(s@.subrange(lo as int, hi as int).drop_last() =~= s@.subrange(
                lo as int,
                hi - 1,
            ));
            hi -= 1;
        }
        assert(strip_trailing(s@.subrange(lo as int, hi as int), c) == s@.subrange(
            lo as int,
            hi as int,
        ));
    }
    slice_of(s, lo, hi)
}

/// An ISO 6709 value (`+52.52+013.40+12/`) split into its latitude,
/// longitude and optional altitude tokens, each with its sign. Surrounding
/// quotes and the trailing `/` are dropped; anything after the altitude
/// refuses the value.
pub open spec fn iso6709_tokens(input: Seq<char>) -> Option<(Seq<char>, Seq<char>, Option<Seq<char>>)> {
    let t = strip_trailing(strip_trailing(strip_leading(trim(input), '"'), '"'), '/');
    match next_signed(t) {
        None => None,
        Some((lat, rest)) => match next_signed(rest) {
            None => None,
            Some((lon, rest2)) => if rest2.len() == 0 {
                Some((lat, lon, None))
            } else {
                match next_signed(rest2) {
                    None => None,
                    Some((alt, leftover)) => if leftover.len() == 0 {
                        Some((lat, lon, Some(alt)))
                    } else {
                        None
                    },
                }
            },
        },
    }
}

pub fn split_iso6709(input: &str) -> (r: Option<(String, String, Option<String>)>)
    ensures
        match iso6709_tokens(input@) {
            None => r is None,
            Some((lat, lon, alt)) => r matches Some((a, b, c)) && a@ == lat && b@ == lon && match alt {
                None => c is None,
                Some(x) => c matches Some(cs) && cs@ == x,
            },
        },
{
    let t = trim_exec(&chars_of(input));
    let t = strip_ends(&t, '"', true, true);
    let t = strip_ends(&t, '/', false, true);
    let (lat, rest) = next_signed_exec(&t)?;
    let (lon, rest2) = next_signed_exec(&rest)?;
    if rest2.len() == 0 {
        return Some((string_from(&lat), string_from(&lon), None));
    }
    let (alt, leftover) = next_signed_exec(&rest2)?;
    if leftover.len() != 0 {
        return None;
    }
    Some((string_from(&lat), string_from(&lon), Some(string_from(&alt))))
}

// ---------------------------------------------------------------------------
// Candidates in an ffmetadata dump
// ---------------------------------------------------------------------------

/// The trimmed text after the first `=`, else after the first `:`.
pub open spec fn tag_value(line: Seq<char>) -> Option<Seq<char>> {
    match split_once(line, "="@) {
        Some((_, v)) => Some(trim(v)),
        None => match split_once(line, ":"@) {
            Some((_, v)) => Some(trim(v)),
            None => None,
        },
    }
}

pub open spec fn ends_token(c: char) -> bool {
    is_ascii_ws(c) || c == '"' || c == ','
}

/// First index at or after `i` that ends an inline ISO 6709 token, or the length.
pub open spec fn token_end(s: Seq<char>, i: int) -> int
    decreases s.len() - i,
{
    if 0 <= i < s.len() {
        if ends_token(s[i]) {
            i
        } else {
            token_end(s, i + 1)
        }
    } else {
        s.len() as int
    }
}

proof fn lemma_token_end(s: Seq<char>, i: int)
    requires
        0 <= i <= s.len(),
    ensures
        i <= token_end(s, i) <= s.len(),
    decreases s.len() - i,
{
    if i < s.len() && !ends_token(s[i]) {
        lemma_token_end(s, i + 1);
    }
}

/// Inline ISO 6709 candidates of `line` from index `i` on: every sign
/// followed by a digit starts one, running to the next space, quote or comma.
pub open spec fn inline_candidates(line: Seq<char>, i: int) -> Seq<(Seq<char>, GeoSource)>
    decreases line.len() - i,
{
    if i < 0 || i >= line.len() {
        seq![]
    } else {
        let here = if is_sign(line[i]) && i + 1 < line.len() && is_digit(line[i + 1]) {
            seq![(line.subrange(i, token_end(line, i)), GeoSource::Quicktime)]
        } else {
            seq![]
        };
        here + inline_candidates(line, i + 1)
    }
}

/// Candidates on one trimmed, non-comment line: the tag value of a line
/// that names `iso6709` or `location` (any case), then the inline values.
pub open spec fn line_candidates(line: Seq<char>) -> Seq<(Seq<char>, GeoSource)> {
    let lower = lower_ascii(line);
    let iso = contains(lower, "iso6709"@);
    let tagged = if iso || contains(lower, "location"@) {
        match tag_value(line) {
            Some(v) => seq![
                (v, if iso {
                    GeoSource::Quicktime
                } else {
                    GeoSource::Ffmetadata
                }),
            ],
            None => seq![],
        }
    } else {
        seq![]
    };
    tagged + inline_candidates(line, 0)
}

/// Candidates of lines `k..` of a dump; blank lines and `;` comments are skipped.
pub open spec fn dump_candidates(ls: Seq<Seq<char>>, k: int) -> Seq<(Seq<char>, GeoSource)>
    decreases ls.len() - k,
{
    if k < 0 || k >= ls.len() {
        seq![]
    } else {
        let line = trim(ls[k]);
        let here = if line.len() == 0 || line[0] == ';' {
            seq![]
        } else {
            line_candidates(line)
        };
        here + dump_candidates(ls, k + 1)
    }
}

pub open spec fn candidates_view(v: Seq<(String, GeoSource)>) -> Seq<(Seq<char>, GeoSource)> {
    v.map_values(|p: (String, GeoSource)| (p.0@, p.1))
}

fn push_candidate(out: &mut Vec<(String, GeoSource)>, text: &[char], source: GeoSource)
    ensures
        candidates_view(final(out)@) == candidates_view(old(out)@).push((text@, source)),
{
    let ghost before = candidates_view(out@);
    out.push((string_from(text), source));
    assert(candidates_view(out@) =~= before.push((text@, source)));
}

fn inline_candidates_exec(line: &[char], out: &mut Vec<(String, GeoSource)>)
    ensures
        candidates_view(final(out)@) == candidates_view(old(out)@) + inline_candidates(line@, 0),
{
    let ghost start = candidates_view(out@);
    let mut i: usize = 0;
    while i < line.len()
        invariant
            i <= line@.len(),
            candidates_view(out@) + inline_candidates(line@, i as int) == start
                + inline_candidates(line@, 0),
        decreases line.len() - i,
    {
        let ghost before = candidates_view(out@);
        let ghost here = if is_sign(line@[i as int]) && i + 1 < line@.len() && is_digit(
            line@[i + 1],
        ) {
            seq![(line@.subrange(i as int, token_end(line@, i as int)), GeoSource::Quicktime)]
        } else {
            Seq::empty()
        };
        assert(inline_candidates(line@, i as int) == here + inline_candidates(line@, i + 1));
        if (line[i] == '+' || line[i] == '-') && i + 1 < line.len() && char_is_digit(line[i + 1]) {
            let mut e = i;
            while e < line.len() && !(line[e] == ' ' || line[e] == '\t' || line[e] == '\n'
                || line[e] == '\x0C' || line[e] == '\r' || line[e] == '"' || line[e] == ',')
                invariant
                    i <= e <= line@.len(),
                    token_end(line@, e as int) == token_end(line@, i as int),
                decreases line.len() - e,
            {
                e += 1;
            }
            let tok = slice_of(line, i, e);
            push_candidate(out, &tok, GeoSource::Quicktime);
            assert(candidates_view(out@) == before + here);
        } else {
            assert(here =~= Seq::<(Seq<char>, GeoSource)>::empty());
            assert(before + here =~= before);
        }
        assert(candidates_view(out@) + inline_candidates(line@, i + 1) =~= before + (here
            + inline_candidates(line@, i + 1)));
        i += 1;
    }
    assert(inline_candidates(line@, i as int) =~= Seq::<(Seq<char>, GeoSource)>::empty());
    assert(candidates_view(out@) + Seq::<(Seq<char>, GeoSource)>::empty() =~= candidates_view(
        out@,
    ));
}

fn tag_value_exec(line: &[char]) -> (r: Option<Vec<char>>)
    ensures
        match tag_value(line@) {
            Some(v) => r matches Some(x) && x@ == v,
            None => r is None,
        },
{
    if let Some((_, v)) = split_once_exec(line, &chars_of("=")) {
        return Some(trim_exec(&v));
    }
    if let Some((_, v)) = split_once_exec(line, &chars_of(":")) {
        return Some(trim_exec(&v));
    }
    None
}

fn line_candidates_exec(line: &[char], out: &mut Vec<(String, GeoSource)>)
    ensures
        candidates_view(final(out)@) == candidates_view(old(out)@) + line_candidates(line@),
{
    let ghost start = candidates_view(out@);
    let lower = lower_ascii_vec(line);
    let iso = contains_str(&lower, "iso6709");
    let ghost tagged: Seq<(Seq<char>, GeoSource)> = Seq::empty();
    if iso || contains_str(&lower, "location") {
        if let Some(v) = tag_value_exec(line) {
            let source = if iso {
                GeoSource::Quicktime
            } else {
                GeoSource::Ffmetadata
            };
            push_candidate(out, &v, source);
            proof {
                tagged = seq![(v@, source)];
            }
        }
    }
    assert(candidates_view(out@) == start + tagged);
    inline_candidates_exec(line, out);
    assert(start + tagged + inline_candidates(line@, 0) =~= start + line_candidates(line@));
}

/// Every ISO 6709 candidate in an FFmpeg metadata dump, in the order the
/// location is looked for: per line, the tagged value first, then inline
/// values. The first candidate that reads as a valid fix is the capture's
/// location, with the candidate's source.
pub fn geo_candidates(dump: &str) -> (r: Vec<(String, GeoSource)>)
    ensures
        candidates_view(r@) == dump_candidates(lines(dump@), 0),
{
    let text = chars_of(dump);
    let ls = lines_exec(&text);
    let ghost lv = ls.deep_view();
    let mut out: Vec<(String, GeoSource)> = Vec::new();
    let mut k: usize = 0;
    while k < ls.len()
        invariant
            lv == ls.deep_view(),
            lv == lines(dump@),
            k <= lv.len(),
            candidates_view(out@) + dump_candidates(lv, k as int) == dump_candidates(lv, 0),
        decreases ls.len() - k,
    {
        let ghost before = candidates_view(out@);
        let line = trim_exec(&ls[k]);
        assert(ls[k as int]@ == lv[k as int]);
        if !(line.len() == 0 || line[0] == ';') {
            line_candidates_exec(&line, &mut out);
        }
        assert(candidates_view(out@) + dump_candidates(lv, k + 1) =~= before + dump_candidates(
            lv,
            k as int,
        ));
        k += 1;
    }
    assert(dump_candidates(lv, k as int) =~= Seq::<(Seq<char>, GeoSource)>::empty());
    assert(candidates_view(out@) + Seq::<(Seq<char>, GeoSource)>::empty() =~= candidates_view(
        out@,
    ));
    out
}

} // verus!
