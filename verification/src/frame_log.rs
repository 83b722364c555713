//! FFmpeg extract passes and the integer side of their progress: the
//! `-progress` and stderr frame counters, the percent band and the summary.
//! Clip durations and output times are fractional seconds and are tracked
//! outside this crate.

use vstd::prelude::*;

use crate::colmap_log::{
    elapsed_part, eta_part, opt_part, push_elapsed_part, push_eta_part, push_opt_part,
};
use crate::text::{
    chars_of, contains, dec_str, first_word, first_word_exec, join, join_exec, parse_u32,
    parse_u32_exec, push_dec, push_piece, push_str, second_piece, second_piece_exec, split_once,
    split_once_exec, string_from, trim, trim_exec,
};

verus! {

broadcast use vstd::string::group_string_axioms;

#[derive(Debug, Clone, Copy, PartialEq, Eq, Structural)]
pub enum FramePass {
    Candidates,
    Keyframes,
    Import,
}

/// A pass's share (0–100) mapped onto 0–99: candidates take 0–50, keyframes
/// 50–100, imports never show less than 5.
pub open spec fn pass_percent(pass: FramePass, fraction: u8) -> u8 {
    let v: int = match pass {
        FramePass::Candidates => fraction * 50 / 100,
        FramePass::Keyframes => 50 + fraction * 50 / 100,
        FramePass::Import => if fraction > 5 {
            fraction as int
        } else {
            5
        },
    };
    if v < 99 {
        v as u8
    } else {
        99
    }
}

/// Maps a pass's own progress (0–100) onto the Frames band.
pub fn percent_for(pass: FramePass, fraction: u8) -> (r: u8)
    requires
        fraction <= 100,
    ensures
        r == pass_percent(pass, fraction),
{
    let v: u8 = match pass {
        FramePass::Candidates => ((fraction as u16) * 50 / 100) as u8,
        FramePass::Keyframes => 50 + ((fraction as u16) * 50 / 100) as u8,
        FramePass::Import => if fraction > 5 {
            fraction
        } else {
            5
        },
    };
    if v < 99 {
        v
    } else {
        99
    }
}

/// Share done from frame counters, 0–100 (0 without a known positive total).
pub open spec fn count_fraction(current: Option<u32>, total: Option<u32>) -> u8 {
    match (current, total) {
        (Some(cur), Some(t)) => if t > 0 {
            let f = cur as nat * 100 / (t as nat);
            if f < 100 {
                f as u8
            } else {
                100
            }
        } else {
            0
        },
        _ => 0,
    }
}

pub fn fraction_from_counts(current: Option<u32>, total: Option<u32>) -> (r: u8)
    ensures
        r == count_fraction(current, total),
        r <= 100,
{
    match (current, total) {
        (Some(cur), Some(t)) => if t > 0 {
            let f: u64 = (cur as u64) * 100 / (t as u64);
            if f < 100 {
                f as u8
            } else {
                100
            }
        } else {
            0
        },
        _ => 0,
    }
}

/// `key=value` from FFmpeg's `-progress` pipe: a key without spaces, both trimmed.
pub open spec fn progress_field(line: Seq<char>) -> Option<(Seq<char>, Seq<char>)> {
    match split_once(line, "="@) {
        None => None,
        Some((k, v)) => if contains(k, " "@) {
            None
        } else {
            Some((trim(k), trim(v)))
        },
    }
}

pub fn parse_progress_field(line: &str) -> (r: Option<(String, String)>)
    ensures
        match progress_field(line@) {
            None => r is None,
            Some((k, v)) => r matches Some((rk, rv)) && rk@ == k && rv@ == v,
        },
{
    let l = chars_of(line);
    let (k, v) = split_once_exec(&l, &chars_of("="))?;
    if crate::text::contains_str(&k, " ") {
        return None;
    }
    Some((string_from(&trim_exec(&k)), string_from(&trim_exec(&v))))
}

/// The frame counter of classic FFmpeg stderr: `frame=  123 fps=...`.
pub open spec fn stderr_frame(line: Seq<char>) -> Option<u32> {
    match second_piece(line, "frame="@) {
        None => None,
        Some(rest) => match first_word(rest) {
            None => None,
            Some(w) => parse_u32(w),
        },
    }
}

pub fn parse_stderr_frame(line: &str) -> (r: Option<u32>)
    ensures
        r == stderr_frame(line@),
{
    let l = chars_of(line);
    let rest = second_piece_exec(&l, &chars_of("frame="))?;
    let w = first_word_exec(&rest)?;
    parse_u32_exec(&w)
}

/// `k` spaces, as FFmpeg pads its stderr counters.
pub open spec fn spaces(k: nat) -> Seq<char> {
    Seq::new(k, |i: int| ' ')
}

/// The decimal text of a number is all digits and reads back as that number.
pub proof fn lemma_dec_str_reads_back(n: nat)
    ensures
        dec_str(n).len() > 0,
        crate::text::all_digits(dec_str(n)),
        crate::text::dec_value(dec_str(n)) == n,
    decreases n,
{
    if n >= 10 {
        lemma_dec_str_reads_back(n / 10);
        let s = dec_str(n);
        assert(s.drop_last() =~= dec_str(n / 10));
        assert(crate::text::digit_val(crate::text::digit_char(n % 10)) == n % 10);
        assert(s.last() == crate::text::digit_char(n % 10));
        assert((n / 10) * 10 + n % 10 == n);
        assert(crate::text::dec_value(s) == crate::text::dec_value(dec_str(n / 10)) * 10
            + crate::text::digit_val(s.last()));
        assert forall|i: int| 0 <= i < s.len() implies crate::text::is_digit(#[trigger] s[i]) by {
            if i < s.len() - 1 {
                assert(s[i] == dec_str(n / 10)[i]);
            }
        }
    } else {
        let s = dec_str(n);
        assert(crate::text::digit_val(crate::text::digit_char(n)) == n);
        assert(s.drop_last() =~= Seq::<char>::empty());
        assert(crate::text::dec_value(s) == crate::text::dec_value(s.drop_last()) * 10
            + crate::text::digit_val(s.last()));
    }
}

/// The decimal text of a `u32` parses back to it.
pub proof fn lemma_parse_u32_of_dec_str(n: u32)
    ensures
        parse_u32(dec_str(n as nat)) == Some(n),
{
    lemma_dec_str_reads_back(n as nat);
    assert(crate::text::is_digit(dec_str(n as nat)[0]));
}

/// No `frame=` starts in `rest = pad + digits + tail` unless it lies in `tail`.
proof fn lemma_no_frame_tag_in_counter(pad: nat, d: Seq<char>, tail: Seq<char>)
    requires
        crate::text::all_digits(d),
        !contains(tail, "frame="@),
    ensures
        crate::text::find(spaces(pad) + d + tail, "frame="@) is None,
{
    reveal_strlit("frame=");
    let pat = "frame="@;
    let rest = spaces(pad) + d + tail;
    let off: int = (pad + d.len()) as int;
    crate::text::lemma_find_from_bounds(tail, pat, 0);
    assert forall|j: int| 0 <= j implies !crate::text::occurs_at(rest, pat, j) by {
        if crate::text::occurs_at(rest, pat, j) {
            assert(rest.subrange(j, j + 6)[0] == pat[0]);
            assert(rest[j] == 'f');
            if j < pad {
                assert(rest[j] == ' ');
            } else if j < off {
                assert(rest[j] == d[j - pad]);
                assert(crate::text::is_digit(d[j - pad]));
            } else {
                assert(tail.subrange(j - off, j - off + 6) =~= rest.subrange(j, j + 6));
                assert(crate::text::occurs_at(tail, pat, j - off));
            }
        }
    }
    crate::text::lemma_find_from_bounds(rest, pat, 0);
}

/// FFmpeg's stderr progress line `frame=` + padding + counter + the rest:
/// the counter is read whatever padding precedes it (none once it reaches
/// the field's width), as long as whitespace or the end of the line follows
/// it and the rest names no second `frame=`.
pub proof fn law_stderr_frame_reads_the_counter(pad: nat, n: u32, tail: Seq<char>)
    requires
        tail.len() > 0 ==> crate::text::is_ws(tail[0]),
        !contains(tail, "frame="@),
    ensures
        stderr_frame("frame="@ + spaces(pad) + dec_str(n as nat) + tail) == Some(n),
{
    reveal_strlit("frame=");
    let pat = "frame="@;
    let d = dec_str(n as nat);
    lemma_dec_str_reads_back(n as nat);
    lemma_parse_u32_of_dec_str(n);
    let rest = spaces(pad) + d + tail;
    let line = pat + rest;
    assert(line =~= "frame="@ + spaces(pad) + dec_str(n as nat) + tail);
    // the first `frame=` is at the start
    assert(line.subrange(0, 6) =~= pat);
    assert(crate::text::occurs_at(line, pat, 0));
    crate::text::lemma_find_from_bounds(line, pat, 0);
    match crate::text::find_from(line, pat, 0) {
        Some(k) => {
            if k > 0 {
                assert(!crate::text::occurs_at(line, pat, 0));
            }
        },
        None => {
            assert(!crate::text::occurs_at(line, pat, 0));
        },
    }
    assert(line.skip(6) =~= rest);
    lemma_no_frame_tag_in_counter(pad, d, tail);
    // the first word of `rest` is the counter
    let off: int = (pad + d.len()) as int;
    crate::text::lemma_skip_ws_from_bounds(rest, 0);
    let a = crate::text::skip_ws_from(rest, 0);
    assert(!crate::text::is_ws(rest[pad as int])) by {
        assert(rest[pad as int] == d[0]);
        assert(crate::text::is_digit(d[0]));
    }
    if a < pad {
        assert(rest[a] == ' ');
    }
    if a > pad {
        assert(crate::text::is_ws(rest[pad as int]));
    }
    assert(a == pad);
    crate::text::lemma_skip_word_from_bounds(rest, pad as int);
    let b = crate::text::skip_word_from(rest, pad as int);
    if b < off {
        assert(rest[b] == d[b - pad]);
        assert(crate::text::is_digit(d[b - pad]));
    }
    if b > off {
        assert(rest[off] == tail[0]);
        assert(!crate::text::is_ws(rest[off]));
    }
    assert(b == off);
    assert(rest.subrange(pad as int, off) =~= d);
}

pub open spec fn pass_label(pass: FramePass) -> Seq<char> {
    match pass {
        FramePass::Candidates => "Candidate frames"@,
        FramePass::Keyframes => "Extracting keyframes"@,
        FramePass::Import => "Importing stills"@,
    }
}

pub open spec fn frame_count_part(current: Option<u32>, total: Option<u32>) -> Seq<Seq<char>> {
    match (current, total) {
        (Some(c), Some(t)) => seq![dec_str(c as nat) + " / "@ + dec_str(t as nat)],
        (Some(c), None) => seq!["frame "@ + dec_str(c as nat)],
        _ => seq![],
    }
}

/// The pieces of the extract summary, in display order.
pub open spec fn frame_summary_parts(
    pass: FramePass,
    current: Option<u32>,
    total: Option<u32>,
    kept: Option<u32>,
    elapsed: Option<u64>,
    eta: Option<u64>,
) -> Seq<Seq<char>> {
    seq![pass_label(pass)] + frame_count_part(current, total) + opt_part(kept, ""@, " kept"@)
        + elapsed_part(elapsed) + eta_part(eta)
}

/// One-line extract summary: pass, counts, kept frames, elapsed time and ETA.
pub fn frame_summary(
    pass: FramePass,
    current: Option<u32>,
    total: Option<u32>,
    kept: Option<u32>,
    elapsed: Option<u64>,
    eta: Option<u64>,
) -> (r: String)
    ensures
        r@ == join(frame_summary_parts(pass, current, total, kept, elapsed, eta), " · "@),
{
    let mut parts: Vec<Vec<char>> = Vec::new();
    let label = match pass {
        FramePass::Candidates => chars_of("Candidate frames"),
        FramePass::Keyframes => chars_of("Extracting keyframes"),
        FramePass::Import => chars_of("Importing stills"),
    };
    push_piece(&mut parts, label);
    let ghost g0 = parts.deep_view();
    match (current, total) {
        (Some(c), Some(t)) => {
            let mut p: Vec<char> = Vec::new();
            push_dec(&mut p, c as u64);
            push_str(&mut p, " / ");
            push_dec(&mut p, t as u64);
            push_piece(&mut parts, p);
        },
        (Some(c), None) => {
            let mut p: Vec<char> = chars_of("frame ");
            push_dec(&mut p, c as u64);
            push_piece(&mut parts, p);
        },
        _ => {},
    }
    assert(parts.deep_view() =~= g0 + frame_count_part(current, total));
    push_opt_part(&mut parts, kept, "", " kept");
    push_elapsed_part(&mut parts, elapsed);
    push_eta_part(&mut parts, eta);
    assert(parts.deep_view() =~= frame_summary_parts(pass, current, total, kept, elapsed, eta));
    let joined = join_exec(&parts, &chars_of(" · "));
    string_from(&joined)
}

} // verus!
