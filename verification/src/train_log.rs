//! Integer side of the Brush CLI log: dataset size, refine steps, export
//! checkpoints, crash detection and the progress band.

use vstd::prelude::*;

use crate::paths::{file_name_chars, path_stem, stem_chars};
use crate::text::{
    before_first, before_first_exec, chars_of, contains, contains_str, dec_str, dec_str2, find,
    find_exec, first_word, first_word_exec, lemma_find_from_bounds, parse_u32, parse_u32_exec,
    push_dec, push_dec2, push_str, second_piece, second_piece_exec, slice_of, split_once,
    split_once_exec, strip_prefix, strip_prefix_exec, string_from, trim, trim_exec, trim_start,
    trim_start_exec, trim_start_matches, trim_start_matches_exec,
};

verus! {

broadcast use vstd::string::group_string_axioms;

/// A Burn/Brush crash report in the trainer output.
pub open spec fn panic_markers(text: Seq<char>) -> bool {
    ||| contains(text, "Ordering is bigger than operations"@)
    ||| contains(text, "panicked at"@)
    ||| contains(text, "CallError(task panicked"@)
}

/// Brush detaches `cli-trainer`, so a Burn panic still prints "Done training" and may exit 0.
pub fn trainer_panicked(text: &str) -> (r: bool)
    ensures
        r == panic_markers(text@),
{
    let t = chars_of(text);
    contains_str(&t, "Ordering is bigger than operations") || contains_str(&t, "panicked at")
        || contains_str(&t, "CallError(task panicked")
}

/// `s[i..]` from the first occurrence of `p`, if any.
pub open spec fn from_marker(s: Seq<char>, p: Seq<char>) -> Option<Seq<char>> {
    match find(s, p) {
        Some(i) => Some(s.skip(i)),
        None => None,
    }
}

/// The trimmed line from its first known message onwards; Brush prefixes
/// messages with timestamps and module paths.
pub open spec fn log_body(line: Seq<char>) -> Seq<char> {
    let t = trim(line);
    match from_marker(t, "Loaded dataset"@) {
        Some(b) => b,
        None => match from_marker(t, "Refine iter"@) {
            Some(b) => b,
            None => match from_marker(t, "Eval iter"@) {
                Some(b) => b,
                None => t,
            },
        },
    }
}

fn from_marker_exec(s: &[char], p: &str) -> (r: Option<Vec<char>>)
    ensures
        match from_marker(s@, p@) {
            Some(b) => r matches Some(v) && v@ == b,
            None => r is None,
        },
{
    let pv = chars_of(p);
    match find_exec(s, &pv) {
        Some(i) => {
            proof {
                lemma_find_from_bounds(s@, p@, 0);
            }
            let v = slice_of(s, i, s.len());
            assert(v@ =~= s@.skip(i as int));
            Some(v)
        },
        None => None,
    }
}

/// The part of a Brush log line the parsers read (see [`log_body`]).
pub fn strip_log_prefix(line: &str) -> (r: Vec<char>)
    ensures
        r@ == log_body(line@),
{
    let l = chars_of(line);
    let t = trim_exec(&l);
    if let Some(b) = from_marker_exec(&t, "Loaded dataset") {
        return b;
    }
    if let Some(b) = from_marker_exec(&t, "Refine iter") {
        return b;
    }
    if let Some(b) = from_marker_exec(&t, "Eval iter") {
        return b;
    }
    t
}

/// `Loaded dataset with <train> training, <eval> eval views`.
pub open spec fn dataset_counts(line: Seq<char>) -> Option<(u32, u32)> {
    match strip_prefix(line, "Loaded dataset with "@) {
        None => None,
        Some(rest) => match split_once(rest, " training"@) {
            None => None,
            Some((train, tail)) => match first_word(trim_start(trim_start_matches(tail, ","@))) {
                None => None,
                Some(eval) => match (parse_u32(trim(train)), parse_u32(eval)) {
                    (Some(t), Some(e)) => Some((t, e)),
                    _ => None,
                },
            },
        },
    }
}

/// Training and evaluation view counts from Brush's dataset line.
pub fn parse_dataset(line: &str) -> (r: Option<(u32, u32)>)
    ensures
        r == dataset_counts(line@),
{
    let l = chars_of(line);
    let prefix = chars_of("Loaded dataset with ");
    let rest = strip_prefix_exec(&l, &prefix)?;
    let sep = chars_of(" training");
    let (train, tail) = split_once_exec(&rest, &sep)?;
    let comma = chars_of(",");
    let after = trim_start_matches_exec(&tail, &comma);
    let after = trim_start_exec(&after);
    let eval = first_word_exec(&after)?;
    let train = trim_exec(&train);
    let t = parse_u32_exec(&train)?;
    let e = parse_u32_exec(&eval)?;
    Some((t, e))
}

/// `Refine iter <iter>, <splats> splats.`
pub open spec fn refine_counts(line: Seq<char>) -> Option<(u32, u32)> {
    match strip_prefix(line, "Refine iter "@) {
        None => None,
        Some(rest) => match split_once(rest, ","@) {
            None => None,
            Some((iter, tail)) => match first_word(trim(tail)) {
                None => None,
                Some(splats) => match (parse_u32(trim(iter)), parse_u32(splats)) {
                    (Some(i), Some(n)) => Some((i, n)),
                    _ => None,
                },
            },
        },
    }
}

/// Step and splat count from Brush's refine line.
pub fn parse_refine(line: &str) -> (r: Option<(u32, u32)>)
    ensures
        r == refine_counts(line@),
{
    let l = chars_of(line);
    let prefix = chars_of("Refine iter ");
    let rest = strip_prefix_exec(&l, &prefix)?;
    let comma = chars_of(",");
    let (iter, tail) = split_once_exec(&rest, &comma)?;
    let tail = trim_exec(&tail);
    let splats = first_word_exec(&tail)?;
    let iter = trim_exec(&iter);
    let i = parse_u32_exec(&iter)?;
    let n = parse_u32_exec(&splats)?;
    Some((i, n))
}

/// `Eval iter <iter>: PSNR <psnr>, ssim <ssim>`: the step and the texts of
/// the two scores.
pub open spec fn eval_parts(line: Seq<char>) -> Option<(u32, Seq<char>, Seq<char>)> {
    match strip_prefix(line, "Eval iter "@) {
        None => None,
        Some(rest) => match split_once(rest, ":"@) {
            None => None,
            Some((iter, tail)) => {
                let t = trim(tail);
                match strip_prefix(t, "PSNR "@) {
                    None => None,
                    Some(p) => match second_piece(t, "ssim "@) {
                        None => None,
                        Some(q) => match parse_u32(trim(iter)) {
                            None => None,
                            Some(i) => Some((i, trim(before_first(p, ","@)), trim(q))),
                        },
                    },
                }
            },
        },
    }
}

/// Splits Brush's eval line into its step and the PSNR and SSIM texts; the
/// scores are decimal fractions, read by the caller.
pub fn eval_fields(line: &str) -> (r: Option<(u32, String, String)>)
    ensures
        match eval_parts(line@) {
            None => r is None,
            Some((i, p, q)) => r matches Some((ri, rp, rq)) && ri == i && rp@ == p && rq@ == q,
        },
{
    let l = chars_of(line);
    let prefix = chars_of("Eval iter ");
    let rest = strip_prefix_exec(&l, &prefix)?;
    let colon = chars_of(":");
    let (iter, tail) = split_once_exec(&rest, &colon)?;
    let t = trim_exec(&tail);
    let psnr_tag = chars_of("PSNR ");
    let p = strip_prefix_exec(&t, &psnr_tag)?;
    let ssim_tag = chars_of("ssim ");
    let q = second_piece_exec(&t, &ssim_tag)?;
    let iter = trim_exec(&iter);
    let i = parse_u32_exec(&iter)?;
    let comma = chars_of(",");
    let p = before_first_exec(&p, &comma);
    let p = trim_exec(&p);
    let q = trim_exec(&q);
    Some((i, string_from(&p), string_from(&q)))
}

/// The step number in a Brush checkpoint path `.../export_<iter>.ply`.
pub open spec fn export_iter(path: Seq<char>) -> Option<u32> {
    match path_stem(path) {
        None => None,
        Some(stem) => match strip_prefix(stem, "export_"@) {
            None => None,
            Some(digits) => parse_u32(digits),
        },
    }
}

pub fn parse_export_iter(path: &str) -> (r: Option<u32>)
    ensures
        r == export_iter(path@),
{
    let p = chars_of(path);
    let name = file_name_chars(&p)?;
    let stem = stem_chars(&name);
    let prefix = chars_of("export_");
    let digits = strip_prefix_exec(&stem, &prefix)?;
    parse_u32_exec(&digits)
}

/// `i` names the checkpoint with the highest step, the first of equals.
pub open spec fn is_newest_export(paths: Seq<Seq<char>>, i: int) -> bool {
    &&& 0 <= i < paths.len()
    &&& export_iter(paths[i]) is Some
    &&& forall|j: int|
        0 <= j < paths.len() && #[trigger] export_iter(paths[j]) is Some ==> export_iter(
            paths[j],
        )->0 <= export_iter(paths[i])->0 && (j < i ==> export_iter(paths[j])->0 < export_iter(
            paths[i],
        )->0)
}

/// The checkpoint among `paths` with the highest step (the first of equals);
/// `None` when no path names a checkpoint.
pub fn newest_export(paths: &Vec<String>) -> (r: Option<usize>)
    ensures
        r matches Some(i) ==> is_newest_export(paths@.map_values(|p: String| p@), i as int),
        r is None <==> forall|j: int|
            0 <= j < paths@.len() ==> #[trigger] export_iter(paths@[j]@) is None,
{
    let ghost view = paths@.map_values(|p: String| p@);
    let mut best: Option<(usize, u32)> = None;
    let mut i: usize = 0;
    while i < paths.len()
        invariant
            i <= paths@.len(),
            view == paths@.map_values(|p: String| p@),
            best is None ==> forall|j: int| 0 <= j < i ==> #[trigger] export_iter(paths@[j]@) is None,
            best matches Some((b, v)) ==> b < i && export_iter(view[b as int]) == Some(v)
                && forall|j: int|
                0 <= j < i && #[trigger] export_iter(view[j]) is Some ==> export_iter(view[j])->0
                    <= v && (j < b ==> export_iter(view[j])->0 < v),
        decreases paths.len() - i,
    {
        assert(view[i as int] == paths@[i as int]@);
        match parse_export_iter(paths[i].as_str()) {
            Some(step) => match best {
                None => best = Some((i, step)),
                Some((_, v)) => if step > v {
                    best = Some((i, step));
                },
            },
            None => {},
        }
        i += 1;
    }
    match best {
        None => None,
        Some((b, _)) => {
            proof {
                assert forall|j: int| 0 <= j < paths@.len() && #[trigger] export_iter(view[j]) is Some
                    implies export_iter(view[j])->0 <= export_iter(view[b as int])->0 && (j < b
                    ==> export_iter(view[j])->0 < export_iter(view[b as int])->0) by {}
            }
            Some(b)
        },
    }
}

/// A newer checkpoint moves the step forward; an older or equal one does not.
pub open spec fn export_advances(current: Option<u32>, iter: u32) -> bool {
    match current {
        Some(c) => iter > c,
        None => true,
    }
}

/// The step reached after seeing checkpoint `path`, and whether it changed.
pub fn step_after_export(current: Option<u32>, path: &str) -> (r: (Option<u32>, bool))
    ensures
        match export_iter(path@) {
            Some(i) => if export_advances(current, i) {
                r == (Some(i), true)
            } else {
                r == (current, false)
            },
            None => r == (current, false),
        },
{
    match parse_export_iter(path) {
        Some(i) => match current {
            Some(c) => if i <= c {
                (current, false)
            } else {
                (Some(i), true)
            },
            None => (Some(i), true),
        },
        None => (current, false),
    }
}

/// Train-stage percent: 15 before the first step, then 15–95 by step,
/// never above 99.
pub open spec fn train_percent_value(iter: Option<u32>, total: u32) -> u8 {
    match iter {
        None => 15,
        Some(i) => {
            let t: int = if total >= 1 { total as int } else { 1 };
            let mapped = 15 + (i as int) * 80 / t;
            if mapped <= 99 { mapped as u8 } else { 99 }
        },
    }
}

/// Training progress stays inside the training band (15..=99) and never goes
/// back as the step grows.
pub proof fn law_train_percent_band_and_order(a: u32, b: u32, total: u32)
    ensures
        15 <= train_percent_value(None, total) <= train_percent_value(Some(a), total) <= 99,
        a <= b ==> train_percent_value(Some(a), total) <= train_percent_value(Some(b), total),
{
    let t: int = if total >= 1 { total as int } else { 1 };
    assert((a as int) * 80 / t >= 0) by (nonlinear_arith)
        requires t >= 1, a >= 0;
    assert(a <= b ==> (a as int) * 80 / t <= (b as int) * 80 / t) by (nonlinear_arith)
        requires t >= 1, a >= 0;
}

/// The step after a checkpoint is never behind the step before it.
pub proof fn law_step_never_goes_back(current: u32, path: Seq<char>)
    ensures
        match export_iter(path) {
            Some(i) => (if export_advances(Some(current), i) { i } else { current }) >= current,
            None => true,
        },
{
}

pub fn train_percent(iter: Option<u32>, total: u32) -> (r: u8)
    ensures
        r == train_percent_value(iter, total),
{
    match iter {
        None => 15,
        Some(i) => {
            let t: u64 = if total >= 1 { total as u64 } else { 1 };
            assert((i as u64) * 80 <= 0xffff_ffffu64 * 80) by (nonlinear_arith)
                requires i <= 0xffff_ffffu32;
            let mapped: u64 = 15 + (i as u64) * 80 / t;
            if mapped <= 99 {
                mapped as u8
            } else {
                99
            }
        },
    }
}

pub open spec fn elapsed_text(secs: u64) -> Seq<char> {
    let minutes = secs / 60;
    let seconds = secs % 60;
    if minutes == 0 {
        dec_str(seconds as nat) + "s"@
    } else {
        dec_str(minutes as nat) + "m "@ + dec_str2(seconds as nat) + "s"@
    }
}

/// Elapsed time as `42s` or `3m 07s`.
pub fn format_elapsed(secs: u64) -> (r: String)
    ensures
        r@ == elapsed_text(secs),
{
    let minutes = secs / 60;
    let seconds = secs % 60;
    let mut out: Vec<char> = Vec::new();
    if minutes == 0 {
        push_dec(&mut out, seconds);
        push_str(&mut out, "s");
    } else {
        push_dec(&mut out, minutes);
        push_str(&mut out, "m ");
        push_dec2(&mut out, seconds);
        push_str(&mut out, "s");
    }
    string_from(&out)
}

} // verus!
