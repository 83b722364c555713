//! Live COLMAP snapshot: features, matches, registered cameras, mapped percent.

use vstd::prelude::*;

use crate::duration::{duration_text, eta_secs, eta_value, push_duration};
use crate::text::{
    all_ascii, before_first, before_first_exec, chars_of, contains, contains_str, dec_str,
    digit_run_exec, digit_run_from, find, find_exec, is_ascii_ws, join, join_exec, last_word,
    last_word_exec, lemma_find_from_bounds, lower_ascii, lower_ascii_vec, parse_u32, parse_u32_exec,
    push_dec, push_piece, push_str, second_piece, second_piece_exec, slice_of, split_once,
    split_once_exec, starts_with, starts_with_str, str_is, string_from, trim, trim_exec, trim_start,
    trim_start_exec, trim_start_matches, trim_start_matches_exec,
};

verus! {

broadcast use vstd::string::group_string_axioms;

#[derive(Debug, Clone, Copy, PartialEq, Eq, Structural)]
pub enum CameraStep {
    Features,
    Matching,
    Calibrating,
    Mapping,
}

/// Snapshot of one COLMAP subcommand. `base`/`span` place the subcommand's
/// own progress inside the overall Cameras band.
#[derive(Debug, Clone, Copy, PartialEq, Eq, Structural)]
pub struct CameraSnapshot {
    pub step: CameraStep,
    pub processed: Option<u32>,
    pub total: Option<u32>,
    pub features: Option<u32>,
    pub matches: Option<u32>,
    pub registered: Option<u32>,
    pub points: Option<u32>,
    pub trying: Option<u32>,
    pub failed: Option<u32>,
    pub elapsed_secs: Option<u64>,
    pub eta_secs: Option<u64>,
    pub visible: Option<u32>,
    pub base: u8,
    pub span: u8,
}

// ---------------------------------------------------------------------------
// Glog records
// ---------------------------------------------------------------------------

/// Glog severity letters.
pub open spec fn is_level(c: char) -> bool {
    c == 'I' || c == 'W' || c == 'E' || c == 'F'
}

/// The message of a glog line: text after the `] ` that closes the glog
/// header, when the trimmed line starts with a severity letter.
pub open spec fn glog_message(line: Seq<char>) -> Seq<char> {
    let t = trim(line);
    if t.len() > 0 && is_level(t[0]) {
        match find(t, "] "@) {
            Some(idx) => t.skip(idx + 2),
            None => match find(t, "]"@) {
                Some(idx) => if trim_start(t.skip(idx + 1)).len() > 0 {
                    trim_start(t.skip(idx + 1))
                } else {
                    t
                },
                None => t,
            },
        }
    } else {
        t
    }
}

/// True when a glog header (`I0815 12:00:00` or `I20260816 17:08:10`) starts at `i`.
pub open spec fn glog_at(s: Seq<char>, i: int) -> bool {
    let rest = s.skip(i);
    if rest.len() == 0 || !is_level(rest[0]) {
        false
    } else {
        let after = rest.skip(1);
        let digits = digit_run_from(after, 0);
        if digits != 4 && digits != 8 {
            false
        } else {
            let time = if digits + 1 <= after.len() {
                after.skip(digits + 1)
            } else {
                Seq::<char>::empty()
            };
            &&& digits < after.len()
            &&& after[digits] == ' '
            &&& time.len() >= 8
            &&& time[2] == ':'
            &&& time[5] == ':'
        }
    }
}

/// A glog header at `i` that begins the chunk or follows ASCII whitespace.
pub open spec fn glog_start_at(s: Seq<char>, i: int) -> bool {
    glog_at(s, i) && (i == 0 || is_ascii_ws(s[i - 1]))
}

/// Record starts found scanning from `i`; after a hit the scan resumes 5 past it.
pub open spec fn glog_starts_from(s: Seq<char>, i: int) -> Seq<int>
    decreases s.len() - i,
{
    if i < 0 || i >= s.len() {
        seq![]
    } else if glog_start_at(s, i) {
        seq![i] + glog_starts_from(s, i + 5)
    } else {
        glog_starts_from(s, i + 1)
    }
}

pub open spec fn nonempty(p: Seq<char>) -> Seq<Seq<char>> {
    if p.len() > 0 {
        seq![p]
    } else {
        seq![]
    }
}

/// Trimmed, non-empty pieces between consecutive record starts, from window `k` on.
pub open spec fn window_records(c: Seq<char>, st: Seq<int>, k: int) -> Seq<Seq<char>>
    decreases st.len() - k,
{
    if k < 0 || k + 1 >= st.len() {
        seq![]
    } else {
        nonempty(trim(c.subrange(st[k], st[k + 1]))) + window_records(c, st, k + 1)
    }
}

/// Glog records of a sidecar chunk that COLMAP may have concatenated.
pub open spec fn records_text(chunk: Seq<char>) -> Seq<Seq<char>> {
    let c = trim(chunk);
    if c.len() == 0 {
        seq![]
    } else {
        let st = glog_starts_from(c, 0);
        if st.len() <= 1 {
            seq![c]
        } else {
            window_records(c, st, 0) + nonempty(trim(c.skip(st.last())))
        }
    }
}

proof fn lemma_starts_are_headers(s: Seq<char>, i: int)
    requires
        0 <= i,
    ensures
        forall|k: int|
            0 <= k < glog_starts_from(s, i).len() ==> i <= #[trigger] glog_starts_from(s, i)[k]
                < s.len() && glog_start_at(s, glog_starts_from(s, i)[k]),
        forall|a: int, b: int|
            0 <= a < b < glog_starts_from(s, i).len() ==> glog_starts_from(s, i)[a]
                < glog_starts_from(s, i)[b],
    decreases s.len() - i,
{
    if i < s.len() {
        if glog_start_at(s, i) {
            lemma_starts_are_headers(s, i + 5);
            let rest = glog_starts_from(s, i + 5);
            let st = glog_starts_from(s, i);
            assert(st == seq![i] + rest);
            assert forall|k: int| 0 <= k < st.len() implies i <= #[trigger] st[k] < s.len()
                && glog_start_at(s, st[k]) by {
                if k > 0 {
                    assert(st[k] == rest[k - 1]);
                }
            }
            assert forall|a: int, b: int| 0 <= a < b < st.len() implies st[a] < st[b] by {
                if a > 0 {
                    assert(st[a] == rest[a - 1]);
                }
                assert(st[b] == rest[b - 1]);
            }
        } else {
            lemma_starts_are_headers(s, i + 1);
            assert(glog_starts_from(s, i) == glog_starts_from(s, i + 1));
        }
    } else {
        assert(glog_starts_from(s, i).len() == 0);
    }
}

proof fn lemma_window_records_nonempty(c: Seq<char>, st: Seq<int>, k: int)
    ensures
        forall|j: int|
            0 <= j < window_records(c, st, k).len() ==> #[trigger] window_records(c, st, k)[j].len()
                > 0,
    decreases st.len() - k,
{
    if k >= 0 && k + 1 < st.len() {
        lemma_window_records_nonempty(c, st, k + 1);
        let head = nonempty(trim(c.subrange(st[k], st[k + 1])));
        let rest = window_records(c, st, k + 1);
        assert forall|j: int| 0 <= j < (head + rest).len() implies #[trigger] (head + rest)[j].len()
            > 0 by {
            if j >= head.len() {
                assert((head + rest)[j] == rest[j - head.len()]);
            }
        }
    }
}

/// How a chunk splits into records: record starts are glog headers that begin
/// the chunk or follow whitespace, in increasing order, and no record is
/// empty; a blank chunk has none, and a chunk with at most one header is one
/// record, the whole trimmed chunk.
pub proof fn law_records_split_at_headers(chunk: Seq<char>)
    ensures
        ({
            let c = trim(chunk);
            let st = glog_starts_from(c, 0);
            &&& forall|k: int| 0 <= k < st.len() ==> glog_start_at(c, #[trigger] st[k])
            &&& forall|a: int, b: int| 0 <= a < b < st.len() ==> st[a] < st[b]
            &&& c.len() == 0 ==> records_text(chunk).len() == 0
            &&& c.len() > 0 && st.len() <= 1 ==> records_text(chunk) == seq![c]
            &&& forall|j: int|
                0 <= j < records_text(chunk).len() ==> #[trigger] records_text(chunk)[j].len() > 0
        }),
{
    let c = trim(chunk);
    let st = glog_starts_from(c, 0);
    lemma_starts_are_headers(c, 0);
    if c.len() > 0 && st.len() > 1 {
        lemma_window_records_nonempty(c, st, 0);
        let w = window_records(c, st, 0);
        let t = nonempty(trim(c.skip(st.last())));
        assert forall|j: int| 0 <= j < (w + t).len() implies #[trigger] (w + t)[j].len() > 0 by {
            if j >= w.len() {
                assert((w + t)[j] == t[j - w.len()]);
            }
        }
    }
}

/// Mapper try/fail chatter kept out of the UI log.
pub open spec fn is_mapper_chatter(line: Seq<char>) -> bool {
    let l = trim_start_matches(trim_start_matches(line, "=> "@), "=&gt; "@);
    ||| starts_with(l, "Registering image #"@)
    ||| starts_with(l, "Registering image with structure-less"@)
    ||| starts_with(l, "Image sees "@)
    ||| starts_with(l, "Could not register"@)
}

/// The UI log line for a COLMAP line: its glog message, unless empty or chatter.
pub open spec fn ui_log_text(line: Seq<char>) -> Option<Seq<char>> {
    let m = glog_message(line);
    if m.len() == 0 || is_mapper_chatter(m) {
        None
    } else {
        Some(m)
    }
}

// ---------------------------------------------------------------------------
// Field parsers
// ---------------------------------------------------------------------------

/// `needle CUR/TOTAL]` progress counters.
pub open spec fn bracket_progress(line: Seq<char>, needle: Seq<char>) -> Option<(u32, u32)> {
    match second_piece(line, needle) {
        None => None,
        Some(rest) => match split_once(rest, "/"@) {
            None => None,
            Some((cur, tail)) => match (
                parse_u32(trim(cur)),
                parse_u32(trim(before_first(tail, "]"@))),
            ) {
                (Some(a), Some(b)) => Some((a, b)),
                _ => None,
            },
        },
    }
}

/// `... N features` (case-insensitive `features`), not on `Image sees` lines.
pub open spec fn features_count(line: Seq<char>) -> Option<u32> {
    if contains(line, "Image sees"@) {
        None
    } else {
        match find(lower_ascii(line), " features"@) {
            None => None,
            Some(idx) => match last_word(line.take(idx)) {
                None => None,
                Some(w) => parse_u32(w),
            },
        }
    }
}

/// `... N in total` on a line that mentions matches.
pub open spec fn matches_count(line: Seq<char>) -> Option<u32> {
    match last_word(before_first(line, "in total"@)) {
        None => None,
        Some(tok) => if contains(lower_ascii(line), "match"@) {
            parse_u32(tok)
        } else {
            None
        },
    }
}

/// The digits right after the first `marker`.
pub open spec fn number_after(line: Seq<char>, marker: Seq<char>) -> Option<u32> {
    match second_piece(line, marker) {
        None => None,
        Some(rest) => parse_u32(rest.take(digit_run_from(rest, 0))),
    }
}

/// `Image sees N / M points`.
pub open spec fn visible_points(line: Seq<char>) -> Option<u32> {
    if !contains(line, "Image sees"@) || !contains(line, "points"@) {
        None
    } else {
        match second_piece(line, "Image sees"@) {
            None => None,
            Some(rest) => parse_u32(trim(before_first(rest, "/"@))),
        }
    }
}

// ---------------------------------------------------------------------------
// Snapshot updates
// ---------------------------------------------------------------------------

pub open spec fn sat_add_u32(a: u32, b: u32) -> u32 {
    if a + b > u32::MAX {
        u32::MAX
    } else {
        (a + b) as u32
    }
}

pub open spec fn or_zero(v: Option<u32>) -> u32 {
    match v {
        Some(n) => n,
        None => 0,
    }
}

pub open spec fn with_progress(s: CameraSnapshot, p: Option<(u32, u32)>) -> (
    CameraSnapshot,
    bool,
) {
    match p {
        Some((cur, total)) => (CameraSnapshot { processed: Some(cur), total: Some(total), ..s }, true),
        None => (s, false),
    }
}

/// Registered (and processed) cameras become `n`, capped by the known total.
pub open spec fn registered_update(s: CameraSnapshot, n: u32) -> (CameraSnapshot, bool) {
    let next = match s.total {
        Some(t) => if n < t {
            n
        } else {
            t
        },
        None => n,
    };
    (
        CameraSnapshot { registered: Some(next), processed: Some(next), ..s },
        s.registered != Some(next) || s.processed != Some(next),
    )
}

pub open spec fn with_features(s: CameraSnapshot, n: Option<u32>) -> (CameraSnapshot, bool) {
    match n {
        Some(n) => (CameraSnapshot { features: Some(sat_add_u32(or_zero(s.features), n)), ..s }, true),
        None => (s, false),
    }
}

pub open spec fn with_matches(s: CameraSnapshot, n: Option<u32>) -> (CameraSnapshot, bool) {
    match n {
        Some(n) => (CameraSnapshot { matches: Some(n), ..s }, true),
        None => (s, false),
    }
}

pub open spec fn with_registered(s: CameraSnapshot, n: Option<u32>) -> (CameraSnapshot, bool) {
    match n {
        Some(n) => registered_update(s, n),
        None => (s, false),
    }
}

pub open spec fn matching_progress(line: Seq<char>) -> Option<(u32, u32)> {
    match bracket_progress(line, "Matching file ["@) {
        Some(p) => Some(p),
        None => bracket_progress(line, "Matching image pair ["@),
    }
}

/// One glog record applied to a snapshot; the flag reports a change of a
/// progress-facing field (not per-image try/fail chatter).
pub open spec fn record_update(s0: CameraSnapshot, raw: Seq<char>) -> (CameraSnapshot, bool) {
    let line = glog_message(raw);
    let (s1, c1) = with_progress(s0, bracket_progress(line, "Processed file ["@));
    let (s2, c2) = with_progress(s1, matching_progress(line));
    let (s3, c3) = with_features(s2, features_count(line));
    let (s4, c4) = with_matches(s3, matches_count(line));
    let (s5, c5) = if contains(line, "Registering initial image pair"@) {
        registered_update(s4, 2)
    } else {
        (s4, false)
    };
    let (s6, c6) = with_registered(s5, number_after(line, "num_reg_frames="@));
    let s7 = match number_after(line, "Registering image #"@) {
        Some(id) => CameraSnapshot { trying: Some(id), ..s6 },
        None => s6,
    };
    let s8 = match visible_points(line) {
        Some(n) => CameraSnapshot { visible: Some(n), ..s7 },
        None => s7,
    };
    let s9 = if contains(line, "Could not register"@) {
        CameraSnapshot { failed: Some(sat_add_u32(or_zero(s8.failed), 1)), ..s8 }
    } else {
        s8
    };
    (s9, c1 || c2 || c3 || c4 || c5 || c6)
}

/// Records applied in order; the flag is set when any record changed progress.
pub open spec fn records_update(s: CameraSnapshot, recs: Seq<Seq<char>>) -> (CameraSnapshot, bool)
    decreases recs.len(),
{
    if recs.len() == 0 {
        (s, false)
    } else {
        let (t, c) = records_update(s, recs.drop_last());
        let (u, d) = record_update(t, recs.last());
        (u, c || d)
    }
}

/// ETA recomputed from elapsed time and the processed/total counters.
pub open spec fn with_eta(s: CameraSnapshot) -> CameraSnapshot {
    CameraSnapshot {
        eta_secs: match (s.elapsed_secs, s.processed, s.total) {
            (Some(e), Some(d), Some(t)) => eta_value(e, d, t),
            _ => None,
        },
        ..s
    }
}

/// A chunk applied to a snapshot: every record in order, then a fresh ETA if
/// anything changed.
pub open spec fn chunk_update(s: CameraSnapshot, chunk: Seq<char>) -> (CameraSnapshot, bool) {
    let (t, changed) = records_update(s, records_text(chunk));
    (
        if changed {
            with_eta(t)
        } else {
            t
        },
        changed,
    )
}

/// Two snapshots that agree on every progress-facing field; they may differ
/// only in per-image chatter (the image being tried, failures, visible points).
pub open spec fn same_progress(a: CameraSnapshot, b: CameraSnapshot) -> bool {
    &&& a.step == b.step
    &&& a.processed == b.processed
    &&& a.total == b.total
    &&& a.features == b.features
    &&& a.matches == b.matches
    &&& a.registered == b.registered
    &&& a.points == b.points
    &&& a.elapsed_secs == b.elapsed_secs
    &&& a.eta_secs == b.eta_secs
    &&& a.base == b.base
    &&& a.span == b.span
}

proof fn lemma_unchanged_record(s: CameraSnapshot, raw: Seq<char>)
    ensures
        !record_update(s, raw).1 ==> same_progress(s, record_update(s, raw).0),
{
}

proof fn lemma_unchanged_records(s: CameraSnapshot, recs: Seq<Seq<char>>)
    ensures
        !records_update(s, recs).1 ==> same_progress(s, records_update(s, recs).0),
    decreases recs.len(),
{
    if recs.len() > 0 {
        lemma_unchanged_records(s, recs.drop_last());
        let (t, c) = records_update(s, recs.drop_last());
        lemma_unchanged_record(t, recs.last());
    }
}

/// A chunk that `ingest` reports as no change leaves every progress-facing
/// field as it was: only per-image chatter (the image being tried, failed
/// registrations, visible points) may have moved.
pub proof fn law_no_change_keeps_progress(s: CameraSnapshot, chunk: Seq<char>)
    ensures
        !chunk_update(s, chunk).1 ==> same_progress(s, chunk_update(s, chunk).0),
{
    lemma_unchanged_records(s, records_text(chunk));
}

/// The record carries a progress counter, a feature count or a match count.
pub open spec fn carries_progress(raw: Seq<char>) -> bool {
    let line = glog_message(raw);
    ||| bracket_progress(line, "Processed file ["@) is Some
    ||| matching_progress(line) is Some
    ||| features_count(line) is Some
    ||| matches_count(line) is Some
}

/// The record names registered cameras (the initial pair, or `num_reg_frames=`).
pub open spec fn carries_registration(raw: Seq<char>) -> bool {
    let line = glog_message(raw);
    contains(line, "Registering initial image pair"@) || number_after(line, "num_reg_frames="@) is Some
}

/// A record that carries progress, features or matches always reports a
/// change; one that carries neither those nor a registration never does,
/// whatever the snapshot.
pub proof fn law_record_change_follows_content(s: CameraSnapshot, raw: Seq<char>)
    ensures
        carries_progress(raw) ==> record_update(s, raw).1,
        !carries_progress(raw) && !carries_registration(raw) ==> !record_update(s, raw).1,
{
}

proof fn lemma_records_flag(s: CameraSnapshot, recs: Seq<Seq<char>>)
    ensures
        records_update(s, recs).1 <==> exists|k: int|
            0 <= k < recs.len() && #[trigger] record_update(
                records_update(s, recs.take(k)).0,
                recs[k],
            ).1,
    decreases recs.len(),
{
    if recs.len() > 0 {
        let n = recs.len() - 1;
        let init = recs.drop_last();
        lemma_records_flag(s, init);
        assert(recs.take(n) =~= init);
        assert forall|k: int| 0 <= k < n implies recs.take(k) =~= init.take(k) && recs[k] == init[k] by {}
        if records_update(s, recs).1 {
            if records_update(s, init).1 {
                let k = choose|k: int|
                    0 <= k < init.len() && #[trigger] record_update(
                        records_update(s, init.take(k)).0,
                        init[k],
                    ).1;
                assert(recs.take(k) =~= init.take(k));
                assert(record_update(records_update(s, recs.take(k)).0, recs[k]).1);
            } else {
                assert(record_update(records_update(s, recs.take(n)).0, recs[n]).1);
            }
        }
        if exists|k: int|
            0 <= k < recs.len() && #[trigger] record_update(
                records_update(s, recs.take(k)).0,
                recs[k],
            ).1 {
            let k = choose|k: int|
                0 <= k < recs.len() && #[trigger] record_update(
                    records_update(s, recs.take(k)).0,
                    recs[k],
                ).1;
            if k < n {
                assert(recs.take(k) =~= init.take(k));
                assert(record_update(records_update(s, init.take(k)).0, init[k]).1);
            }
        }
    }
}

/// `ingest` reports a change exactly when some record of the chunk, applied
/// in order, reports one (see [`law_record_change_follows_content`] for which
/// records do).
pub proof fn law_ingest_reports_record_changes(s: CameraSnapshot, chunk: Seq<char>)
    ensures
        chunk_update(s, chunk).1 <==> exists|k: int|
            0 <= k < records_text(chunk).len() && #[trigger] record_update(
                records_update(s, records_text(chunk).take(k)).0,
                records_text(chunk)[k],
            ).1,
{
    lemma_records_flag(s, records_text(chunk));
}

/// Counts pushed from the finished sparse model.
pub open spec fn counts_update(
    s: CameraSnapshot,
    registered: Option<u32>,
    points: Option<u32>,
    total: Option<u32>,
) -> CameraSnapshot {
    let s1 = with_registered(s, registered).0;
    let s2 = match points {
        Some(n) => CameraSnapshot { points: Some(n), ..s1 },
        None => s1,
    };
    let s3 = match total {
        Some(n) => CameraSnapshot { total: Some(n), ..s2 },
        None => s2,
    };
    with_eta(s3)
}

/// Share of the subcommand done, 0–100.
pub open spec fn fraction_done(s: CameraSnapshot) -> nat {
    match (s.processed, s.total) {
        (Some(cur), Some(t)) => if t > 0 {
            (if cur < t {
                cur
            } else {
                t
            }) as nat * 100 / (t as nat)
        } else {
            0
        },
        _ => 0,
    }
}

/// The band width a snapshot maps its fraction onto; never below 1.
pub open spec fn band_span(s: CameraSnapshot) -> u8 {
    if s.span > 1 {
        s.span
    } else {
        1
    }
}

/// Overall percent: `base + span * fraction / 100` (span at least 1), capped at 99.
pub open spec fn percent_value(s: CameraSnapshot) -> u8 {
    let m = s.base as nat + band_span(s) as nat * fraction_done(s) / 100;
    if m < 99 {
        m as u8
    } else {
        99
    }
}

pub open spec fn step_label(step: CameraStep) -> Seq<char> {
    match step {
        CameraStep::Features => "Extracting features"@,
        CameraStep::Matching => "Matching views"@,
        CameraStep::Calibrating => "Calibrating cameras"@,
        CameraStep::Mapping => "Mapping cameras"@,
    }
}

pub open spec fn opt_part(v: Option<u32>, prefix: Seq<char>, suffix: Seq<char>) -> Seq<Seq<char>> {
    match v {
        Some(n) => seq![prefix + dec_str(n as nat) + suffix],
        None => seq![],
    }
}

pub open spec fn count_part(s: CameraSnapshot) -> Seq<Seq<char>> {
    match (s.processed, s.total) {
        (Some(cur), Some(total)) => seq![dec_str(cur as nat) + " / "@ + dec_str(total as nat)],
        _ => opt_part(s.registered, ""@, " cameras"@),
    }
}

pub open spec fn failed_part(failed: Option<u32>) -> Seq<Seq<char>> {
    match failed {
        Some(n) => if n > 0 {
            seq![dec_str(n as nat) + " failed"@]
        } else {
            seq![]
        },
        None => seq![],
    }
}

pub open spec fn elapsed_part(secs: Option<u64>) -> Seq<Seq<char>> {
    match secs {
        Some(secs) => seq![duration_text(secs as nat)],
        None => seq![],
    }
}

pub open spec fn eta_part(secs: Option<u64>) -> Seq<Seq<char>> {
    match secs {
        Some(secs) => seq!["ETA "@ + duration_text(secs as nat)],
        None => seq![],
    }
}

/// The pieces of the one-line summary, in display order.
pub open spec fn summary_parts(s: CameraSnapshot) -> Seq<Seq<char>> {
    seq![step_label(s.step)] + count_part(s) + opt_part(s.trying, "trying #"@, ""@) + opt_part(
        s.visible,
        "sees "@,
        " pts"@,
    ) + failed_part(s.failed) + opt_part(s.features, ""@, " features"@) + opt_part(
        s.matches,
        ""@,
        " matches"@,
    ) + opt_part(s.points, ""@, " points"@) + elapsed_part(s.elapsed_secs) + eta_part(
        s.eta_secs,
    )
}

pub open spec fn summary_text(s: CameraSnapshot) -> Seq<char> {
    join(summary_parts(s), " · "@)
}

/// Band and label for each COLMAP subcommand.
pub open spec fn band_for(subcommand: Seq<char>) -> (CameraStep, u8, u8, Seq<char>) {
    if subcommand == "feature_extractor"@ {
        (CameraStep::Features, 20, 30, "Extracting features"@)
    } else if subcommand == "sequential_matcher"@ || subcommand == "exhaustive_matcher"@ {
        (CameraStep::Matching, 50, 20, "Matching views"@)
    } else if subcommand == "view_graph_calibrator"@ {
        (CameraStep::Calibrating, 70, 15, "Calibrating cameras"@)
    } else if subcommand == "mapper"@ || subcommand == "global_mapper"@ {
        (CameraStep::Mapping, 85, 14, "Mapping cameras"@)
    } else {
        (CameraStep::Features, 10, 10, "Estimating camera poses"@)
    }
}

pub open spec fn fresh_snapshot(step: CameraStep, base: u8, span: u8) -> CameraSnapshot {
    CameraSnapshot {
        step,
        processed: None,
        total: None,
        features: None,
        matches: None,
        registered: None,
        points: None,
        trying: None,
        failed: None,
        elapsed_secs: None,
        eta_secs: None,
        visible: None,
        base,
        span: if span > 1 {
            span
        } else {
            1
        },
    }
}

// ---------------------------------------------------------------------------
// Executable parsers
// ---------------------------------------------------------------------------

fn glog_message_chars(line: &[char]) -> (r: Vec<char>)
    ensures
        r@ == glog_message(line@),
{
    let t = trim_exec(line);
    if t.len() > 0 && (t[0] == 'I' || t[0] == 'W' || t[0] == 'E' || t[0] == 'F') {
        let close_sp = chars_of("] ");
        proof {
            reveal_strlit("] ");
        }
        if let Some(idx) = find_exec(&t, &close_sp) {
            proof {
                lemma_find_from_bounds(t@, close_sp@, 0);
            }
            return slice_of(&t, idx + 2, t.len());
        }
        let close = chars_of("]");
        proof {
            reveal_strlit("]");
        }
        if let Some(idx) = find_exec(&t, &close) {
            proof {
                lemma_find_from_bounds(t@, close@, 0);
            }
            let after = slice_of(&t, idx + 1, t.len());
            let rest = trim_start_exec(&after);
            if rest.len() > 0 {
                return rest;
            }
        }
    }
    t
}

/// Strips the glog header (`I0815 12:00:00.1 1 file.cc:1] `) from a line.
pub fn strip_glog(line: &str) -> (r: String)
    ensures
        r@ == glog_message(line@),
{
    let l = chars_of(line);
    let m = glog_message_chars(&l);
    string_from(&m)
}

fn is_mapper_chatter_chars(line: &[char]) -> (r: bool)
    ensures
        r == is_mapper_chatter(line@),
{
    let arrow = chars_of("=> ");
    let esc = chars_of("=&gt; ");
    let a = trim_start_matches_exec(line, &arrow);
    let l = trim_start_matches_exec(&a, &esc);
    starts_with_str(&l, "Registering image #") || starts_with_str(
        &l,
        "Registering image with structure-less",
    ) || starts_with_str(&l, "Image sees ") || starts_with_str(&l, "Could not register")
}

/// Mapper chatter is parsed for stats but omitted from the UI log.
pub fn ui_log(line: &str) -> (r: Option<String>)
    ensures
        r matches Some(m) ==> ui_log_text(line@) == Some(m@),
        r is None ==> ui_log_text(line@) is None,
{
    let l = chars_of(line);
    let m = glog_message_chars(&l);
    if m.len() == 0 || is_mapper_chatter_chars(&m) {
        return None;
    }
    Some(string_from(&m))
}

fn is_glog_at(s: &[char], i: usize) -> (r: bool)
    requires
        i <= s@.len(),
    ensures
        r == glog_at(s@, i as int),
{
    let rest = slice_of(s, i, s.len());
    assert(rest@ =~= s@.skip(i as int));
    if rest.len() == 0 || !(rest[0] == 'I' || rest[0] == 'W' || rest[0] == 'E' || rest[0] == 'F') {
        return false;
    }
    let after = slice_of(&rest, 1, rest.len());
    assert(after@ =~= rest@.skip(1));
    let digits = digit_run_exec(&after, 0);
    if digits != 4 && digits != 8 {
        return false;
    }
    if digits >= after.len() || after[digits] != ' ' {
        return false;
    }
    let time = slice_of(&after, digits + 1, after.len());
    assert(time@ =~= after@.skip(digits + 1));
    time.len() >= 8 && time[2] == ':' && time[5] == ':'
}

pub proof fn lemma_glog_starts_shape(s: Seq<char>, i: int)
    requires
        0 <= i,
    ensures
        forall|k: int|
            0 <= k < glog_starts_from(s, i).len() ==> i <= #[trigger] glog_starts_from(s, i)[k]
                < s.len(),
        forall|a: int, b: int|
            0 <= a < b < glog_starts_from(s, i).len() ==> glog_starts_from(s, i)[a]
                < glog_starts_from(s, i)[b],
    decreases s.len() - i,
{
    if i >= s.len() {
    } else if glog_start_at(s, i) {
        lemma_glog_starts_shape(s, i + 5);
        let tail = glog_starts_from(s, i + 5);
        let all = glog_starts_from(s, i);
        assert(all == seq![i] + tail);
        assert forall|k: int| 0 <= k < all.len() implies i <= #[trigger] all[k] < s.len() by {
            if k > 0 {
                assert(all[k] == tail[k - 1]);
            }
        }
        assert forall|a: int, b: int| 0 <= a < b < all.len() implies all[a] < all[b] by {
            assert(all[b] == tail[b - 1]);
            if a > 0 {
                assert(all[a] == tail[a - 1]);
            }
        }
    } else {
        lemma_glog_starts_shape(s, i + 1);
        assert(glog_starts_from(s, i) == glog_starts_from(s, i + 1));
    }
}

fn glog_starts(s: &[char]) -> (r: Vec<usize>)
    ensures
        r@.map_values(|x: usize| x as int) == glog_starts_from(s@, 0),
{
    let mut out: Vec<usize> = Vec::new();
    let mut i: usize = 0;
    let n = s.len();
    while i < n
        invariant
            n == s@.len(),
            out@.map_values(|x: usize| x as int) + glog_starts_from(s@, i as int)
                == glog_starts_from(s@, 0),
        decreases n - i,
    {
        let ghost before = out@.map_values(|x: usize| x as int);
        if is_glog_at(s, i) && (i == 0 || is_ascii_whitespace_char(s[i - 1])) {
            out.push(i);
            assert(out@.map_values(|x: usize| x as int) =~= before.push(i as int));
            assert(before + glog_starts_from(s@, i as int) =~= out@.map_values(|x: usize| x as int)
                + glog_starts_from(s@, i + 5));
            if i > n - 5 {
                assert(glog_starts_from(s@, i + 5) =~= Seq::<int>::empty());
                i = n;
            } else {
                i += 5;
            }
        } else {
            i += 1;
        }
    }
    assert(glog_starts_from(s@, i as int) =~= Seq::<int>::empty());
    assert(out@.map_values(|x: usize| x as int) + Seq::<int>::empty() =~= out@.map_values(
        |x: usize| x as int,
    ));
    out
}

fn is_ascii_whitespace_char(c: char) -> (r: bool)
    ensures
        r == is_ascii_ws(c),
{
    c == ' ' || c == '\t' || c == '\n' || c == '\x0C' || c == '\r'
}

fn push_nonempty(out: &mut Vec<Vec<char>>, piece: Vec<char>)
    ensures
        final(out).deep_view() == old(out).deep_view() + nonempty(piece@),
{
    if piece.len() > 0 {
        push_piece(out, piece);
    } else {
        assert(old(out).deep_view() + nonempty(piece@) =~= old(out).deep_view());
    }
}

fn records_chars(chunk: &[char]) -> (r: Vec<Vec<char>>)
    requires
        all_ascii(trim(chunk@)),
    ensures
        r.deep_view() == records_text(chunk@),
{
    let c = trim_exec(chunk);
    let mut out: Vec<Vec<char>> = Vec::new();
    if c.len() == 0 {
        assert(out.deep_view() =~= records_text(chunk@));
        return out;
    }
    let starts = glog_starts(&c);
    let ghost st = glog_starts_from(c@, 0);
    proof {
        lemma_glog_starts_shape(c@, 0);
        assert(starts@.len() == st.len());
        assert forall|k: int| 0 <= k < starts@.len() implies starts@[k] as int == st[k] by {
            assert(starts@.map_values(|x: usize| x as int)[k] == starts@[k] as int);
        }
    }
    if starts.len() <= 1 {
        push_piece(&mut out, c);
        assert(out.deep_view() =~= records_text(chunk@));
        return out;
    }
    let mut k: usize = 0;
    while k + 1 < starts.len()
        invariant
            c@ == trim(chunk@),
            st == glog_starts_from(c@, 0),
            starts@.len() == st.len(),
            st.len() >= 2,
            forall|j: int| 0 <= j < starts@.len() ==> starts@[j] as int == st[j],
            forall|j: int| 0 <= j < st.len() ==> 0 <= #[trigger] st[j] < c@.len(),
            forall|a: int, b: int| 0 <= a < b < st.len() ==> st[a] < st[b],
            k + 1 <= starts@.len(),
            out.deep_view() + window_records(c@, st, k as int) == window_records(c@, st, 0),
        decreases starts.len() - k,
    {
        let lo = starts[k];
        let hi = starts[k + 1];
        assert(lo < hi);
        let piece_raw = slice_of(&c, lo, hi);
        let piece = trim_exec(&piece_raw);
        let ghost before = out.deep_view();
        push_nonempty(&mut out, piece);
        assert(before + window_records(c@, st, k as int) =~= out.deep_view() + window_records(
            c@,
            st,
            k + 1,
        ));
        k += 1;
    }
    assert(window_records(c@, st, k as int) =~= Seq::<Seq<char>>::empty());
    assert(out.deep_view() =~= window_records(c@, st, 0));
    let last = starts[starts.len() - 1];
    assert(starts@[starts@.len() - 1] as int == st[st.len() - 1]);
    assert(0 <= st[st.len() - 1] < c@.len());
    let tail_raw = slice_of(&c, last, c.len());
    assert(tail_raw@ =~= c@.skip(st.last()));
    let tail = trim_exec(&tail_raw);
    push_nonempty(&mut out, tail);
    out
}

/// Splits a sidecar chunk into glog records when COLMAP concatenates them.
pub fn records(chunk: &str) -> (r: Vec<String>)
    requires
        all_ascii(trim(chunk@)),
    ensures
        r@.len() == records_text(chunk@).len(),
        forall|i: int| 0 <= i < r@.len() ==> #[trigger] r@[i]@ == records_text(chunk@)[i],
{
    let c = chars_of(chunk);
    let recs = records_chars(&c);
    let mut out: Vec<String> = Vec::new();
    let mut i: usize = 0;
    while i < recs.len()
        invariant
            recs.deep_view() == records_text(chunk@),
            i <= recs@.len(),
            out@.len() == i,
            forall|j: int| 0 <= j < i ==> #[trigger] out@[j]@ == records_text(chunk@)[j],
        decreases recs.len() - i,
    {
        let s = string_from(&recs[i]);
        assert(recs.deep_view()[i as int] == recs@[i as int]@);
        out.push(s);
        i += 1;
    }
    out
}

fn bracket_progress_chars(line: &[char], needle: &[char]) -> (r: Option<(u32, u32)>)
    ensures
        r == bracket_progress(line@, needle@),
{
    let rest = match second_piece_exec(line, needle) {
        Some(r) => r,
        None => return None,
    };
    let slash = chars_of("/");
    let (cur, tail) = match split_once_exec(&rest, &slash) {
        Some(p) => p,
        None => return None,
    };
    let close = chars_of("]");
    let total = before_first_exec(&tail, &close);
    let a = parse_u32_exec(&trim_exec(&cur));
    let b = parse_u32_exec(&trim_exec(&total));
    match (a, b) {
        (Some(a), Some(b)) => Some((a, b)),
        _ => None,
    }
}

fn features_count_chars(line: &[char]) -> (r: Option<u32>)
    ensures
        r == features_count(line@),
{
    if contains_str(line, "Image sees") {
        return None;
    }
    let lower = lower_ascii_vec(line);
    let pat = chars_of(" features");
    let idx = match find_exec(&lower, &pat) {
        Some(i) => i,
        None => return None,
    };
    proof {
        lemma_find_from_bounds(lower@, pat@, 0);
    }
    let head = slice_of(line, 0, idx);
    assert(head@ =~= line@.take(idx as int));
    match last_word_exec(&head) {
        Some(w) => parse_u32_exec(&w),
        None => None,
    }
}

fn matches_count_chars(line: &[char]) -> (r: Option<u32>)
    ensures
        r == matches_count(line@),
{
    let pat = chars_of("in total");
    let rest = before_first_exec(line, &pat);
    let tok = match last_word_exec(&rest) {
        Some(t) => t,
        None => return None,
    };
    let lower = lower_ascii_vec(line);
    if contains_str(&lower, "match") {
        parse_u32_exec(&tok)
    } else {
        None
    }
}

fn number_after_chars(line: &[char], marker: &str) -> (r: Option<u32>)
    ensures
        r == number_after(line@, marker@),
{
    let m = chars_of(marker);
    let rest = match second_piece_exec(line, &m) {
        Some(r) => r,
        None => return None,
    };
    let end = digit_run_exec(&rest, 0);
    let digits = slice_of(&rest, 0, end);
    assert(digits@ =~= rest@.take(end as int));
    parse_u32_exec(&digits)
}

fn visible_points_chars(line: &[char]) -> (r: Option<u32>)
    ensures
        r == visible_points(line@),
{
    if !contains_str(line, "Image sees") || !contains_str(line, "points") {
        return None;
    }
    let m = chars_of("Image sees");
    let rest = match second_piece_exec(line, &m) {
        Some(r) => r,
        None => return None,
    };
    let slash = chars_of("/");
    let head = before_first_exec(&rest, &slash);
    parse_u32_exec(&trim_exec(&head))
}

// ---------------------------------------------------------------------------
// The snapshot
// ---------------------------------------------------------------------------

impl CameraSnapshot {
    pub fn new(step: CameraStep, base: u8, span: u8) -> (r: Self)
        ensures
            r == fresh_snapshot(step, base, span),
    {
        Self {
            step,
            processed: None,
            total: None,
            features: None,
            matches: None,
            registered: None,
            points: None,
            trying: None,
            failed: None,
            elapsed_secs: None,
            eta_secs: None,
            visible: None,
            base,
            span: if span > 1 {
                span
            } else {
                1
            },
        }
    }

    /// Progress band and label for a COLMAP subcommand in `args[0]`.
    pub fn for_spec(subcommand: &str) -> (r: (Self, &'static str))
        ensures
            ({
                let (step, base, span, label) = band_for(subcommand@);
                r.0 == fresh_snapshot(step, base, span) && r.1@ == label
            }),
    {
        if str_is(subcommand, "feature_extractor") {
            (Self::new(CameraStep::Features, 20, 30), "Extracting features")
        } else if str_is(subcommand, "sequential_matcher") || str_is(
            subcommand,
            "exhaustive_matcher",
        ) {
            (Self::new(CameraStep::Matching, 50, 20), "Matching views")
        } else if str_is(subcommand, "view_graph_calibrator") {
            (Self::new(CameraStep::Calibrating, 70, 15), "Calibrating cameras")
        } else if str_is(subcommand, "mapper") || str_is(subcommand, "global_mapper") {
            (Self::new(CameraStep::Mapping, 85, 14), "Mapping cameras")
        } else {
            (Self::new(CameraStep::Features, 10, 10), "Estimating camera poses")
        }
    }

    fn apply_progress(&mut self, p: Option<(u32, u32)>) -> (r: bool)
        ensures
            (*final(self), r) == with_progress(*old(self), p),
    {
        match p {
            Some((cur, total)) => {
                self.processed = Some(cur);
                self.total = Some(total);
                true
            },
            None => false,
        }
    }

    fn set_registered(&mut self, n: u32) -> (r: bool)
        ensures
            (*final(self), r) == registered_update(*old(self), n),
    {
        let next = match self.total {
            Some(total) => if n < total {
                n
            } else {
                total
            },
            None => n,
        };
        let reg_same = match self.registered {
            Some(v) => v == next,
            None => false,
        };
        let proc_same = match self.processed {
            Some(v) => v == next,
            None => false,
        };
        self.registered = Some(next);
        self.processed = Some(next);
        !reg_same || !proc_same
    }

    fn ingest_record(&mut self, raw: &[char]) -> (r: bool)
        ensures
            (*final(self), r) == record_update(*old(self), raw@),
    {
        let line = glog_message_chars(raw);
        let ghost l = line@;
        let c1 = self.apply_progress(bracket_progress_chars(&line, &chars_of("Processed file [")));
        let m = match bracket_progress_chars(&line, &chars_of("Matching file [")) {
            Some(p) => Some(p),
            None => bracket_progress_chars(&line, &chars_of("Matching image pair [")),
        };
        assert(m == matching_progress(l));
        let c2 = self.apply_progress(m);
        let c3 = match features_count_chars(&line) {
            Some(n) => {
                let prev = match self.features {
                    Some(f) => f,
                    None => 0,
                };
                self.features = Some(prev.saturating_add(n));
                true
            },
            None => false,
        };
        let c4 = match matches_count_chars(&line) {
            Some(n) => {
                self.matches = Some(n);
                true
            },
            None => false,
        };
        let c5 = if contains_str(&line, "Registering initial image pair") {
            self.set_registered(2)
        } else {
            false
        };
        let c6 = match number_after_chars(&line, "num_reg_frames=") {
            Some(n) => self.set_registered(n),
            None => false,
        };
        if let Some(id) = number_after_chars(&line, "Registering image #") {
            self.trying = Some(id);
        }
        if let Some(n) = visible_points_chars(&line) {
            self.visible = Some(n);
        }
        if contains_str(&line, "Could not register") {
            let prev = match self.failed {
                Some(f) => f,
                None => 0,
            };
            self.failed = Some(prev.saturating_add(1));
        }
        c1 || c2 || c3 || c4 || c5 || c6
    }

    fn refresh_eta(&mut self)
        ensures
            *final(self) == with_eta(*old(self)),
    {
        self.eta_secs = match (self.elapsed_secs, self.processed, self.total) {
            (Some(elapsed), Some(done), Some(total)) => eta_secs(elapsed, done, total),
            _ => None,
        };
    }

    /// Updates from a COLMAP log chunk (one or more glog records).
    /// Returns whether progress-facing fields changed — not per-image try/fail chatter.
    pub fn ingest(&mut self, chunk: &str) -> (r: bool)
        requires
            all_ascii(trim(chunk@)),
        ensures
            (*final(self), r) == chunk_update(*old(self), chunk@),
    {
        let c = chars_of(chunk);
        let recs = records_chars(&c);
        let ghost start = *self;
        let ghost rs = records_text(chunk@);
        let mut changed = false;
        let mut i: usize = 0;
        while i < recs.len()
            invariant
                recs.deep_view() == rs,
                rs == records_text(chunk@),
                i <= recs@.len(),
                (*self, changed) == records_update(start, rs.take(i as int)),
            decreases recs.len() - i,
        {
            assert(rs.take(i + 1).drop_last() =~= rs.take(i as int));
            assert(rs.take(i + 1).last() == recs@[i as int]@);
            let c = self.ingest_record(&recs[i]);
            changed = changed || c;
            i += 1;
        }
        assert(rs.take(recs@.len() as int) =~= rs);
        if changed {
            self.refresh_eta();
        }
        changed
    }

    pub fn set_counts(&mut self, registered: Option<u32>, points: Option<u32>, total: Option<u32>)
        ensures
            *final(self) == counts_update(*old(self), registered, points, total),
    {
        if let Some(n) = registered {
            self.set_registered(n);
        }
        if let Some(n) = points {
            self.points = Some(n);
        }
        if let Some(n) = total {
            self.total = Some(n);
        }
        self.refresh_eta();
    }

    pub fn percent(&self) -> (r: u8)
        ensures
            r == percent_value(*self),
    {
        let fraction: u8 = match (self.processed, self.total) {
            (Some(cur), Some(total)) => if total > 0 {
                let c = if cur < total {
                    cur
                } else {
                    total
                };
                assert((c as nat) * 100 / (total as nat) <= 100) by (nonlinear_arith)
                    requires
                        c <= total,
                        total > 0,
                ;
                ((c as u64) * 100 / (total as u64)) as u8
            } else {
                0
            },
            _ => 0,
        };
        assert(fraction as nat == fraction_done(*self));
        let span: u8 = if self.span > 1 {
            self.span
        } else {
            1
        };
        assert(span as nat * fraction as nat <= 255 * 100) by (nonlinear_arith)
            requires
                fraction <= 100,
        ;
        let mapped: u16 = (self.base as u16) + (span as u16) * (fraction as u16) / 100;
        if mapped < 99 {
            mapped as u8
        } else {
            99
        }
    }

    pub fn summary(&self) -> (r: String)
        ensures
            r@ == summary_text(*self),
    {
        let mut parts: Vec<Vec<char>> = Vec::new();
        let label: Vec<char> = match self.step {
            CameraStep::Features => chars_of("Extracting features"),
            CameraStep::Matching => chars_of("Matching views"),
            CameraStep::Calibrating => chars_of("Calibrating cameras"),
            CameraStep::Mapping => chars_of("Mapping cameras"),
        };
        push_piece(&mut parts, label);
        let ghost g0 = parts.deep_view();
        push_count_part(&mut parts, self.processed, self.total, self.registered);
        let ghost g1 = parts.deep_view();
        push_opt_part(&mut parts, self.trying, "trying #", "");
        let ghost g2 = parts.deep_view();
        push_opt_part(&mut parts, self.visible, "sees ", " pts");
        let ghost g3 = parts.deep_view();
        push_failed_part(&mut parts, self.failed);
        let ghost g4 = parts.deep_view();
        push_opt_part(&mut parts, self.features, "", " features");
        let ghost g5 = parts.deep_view();
        push_opt_part(&mut parts, self.matches, "", " matches");
        let ghost g6 = parts.deep_view();
        push_opt_part(&mut parts, self.points, "", " points");
        let ghost g7 = parts.deep_view();
        push_elapsed_part(&mut parts, self.elapsed_secs);
        let ghost g8 = parts.deep_view();
        push_eta_part(&mut parts, self.eta_secs);
        assert(g0 =~= seq![step_label(self.step)]);
        assert(parts.deep_view() == summary_parts(*self));
        let sep = chars_of(" · ");
        let joined = join_exec(&parts, &sep);
        string_from(&joined)
    }
}

pub(crate) fn push_opt_part(parts: &mut Vec<Vec<char>>, v: Option<u32>, prefix: &str, suffix: &str)
    ensures
        final(parts).deep_view() == old(parts).deep_view() + opt_part(v, prefix@, suffix@),
{
    if let Some(n) = v {
        let mut p: Vec<char> = chars_of(prefix);
        push_dec(&mut p, n as u64);
        push_str(&mut p, suffix);
        push_piece(parts, p);
    } else {
        assert(old(parts).deep_view() + opt_part(v, prefix@, suffix@) =~= old(parts).deep_view());
    }
}

fn push_count_part(
    parts: &mut Vec<Vec<char>>,
    processed: Option<u32>,
    total: Option<u32>,
    registered: Option<u32>,
)
    ensures
        forall|s: CameraSnapshot|
            s.processed == processed && s.total == total && s.registered == registered
                ==> final(parts).deep_view() == old(parts).deep_view() + #[trigger] count_part(s),
{
    match (processed, total) {
        (Some(cur), Some(total)) => {
            let mut p: Vec<char> = Vec::new();
            push_dec(&mut p, cur as u64);
            push_str(&mut p, " / ");
            push_dec(&mut p, total as u64);
            push_piece(parts, p);
        },
        _ => {
            push_opt_part(parts, registered, "", " cameras");
        },
    }
}

fn push_failed_part(parts: &mut Vec<Vec<char>>, failed: Option<u32>)
    ensures
        final(parts).deep_view() == old(parts).deep_view() + failed_part(failed),
{
    match failed {
        Some(n) => {
            if n > 0 {
                let mut p: Vec<char> = Vec::new();
                push_dec(&mut p, n as u64);
                push_str(&mut p, " failed");
                push_piece(parts, p);
            } else {
                assert(old(parts).deep_view() + failed_part(failed) =~= old(parts).deep_view());
            }
        },
        None => {
            assert(old(parts).deep_view() + failed_part(failed) =~= old(parts).deep_view());
        },
    }
}

pub(crate) fn push_elapsed_part(parts: &mut Vec<Vec<char>>, secs: Option<u64>)
    ensures
        final(parts).deep_view() == old(parts).deep_view() + elapsed_part(secs),
{
    match secs {
        Some(s) => {
            let mut p: Vec<char> = Vec::new();
            push_duration(&mut p, s);
            assert(p@ =~= duration_text(s as nat));
            push_piece(parts, p);
        },
        None => {
            assert(old(parts).deep_view() + elapsed_part(secs) =~= old(parts).deep_view());
        },
    }
}

pub(crate) fn push_eta_part(parts: &mut Vec<Vec<char>>, secs: Option<u64>)
    ensures
        final(parts).deep_view() == old(parts).deep_view() + eta_part(secs),
{
    match secs {
        Some(s) => {
            let mut p: Vec<char> = chars_of("ETA ");
            push_duration(&mut p, s);
            push_piece(parts, p);
        },
        None => {
            assert(old(parts).deep_view() + eta_part(secs) =~= old(parts).deep_view());
        },
    }
}

} // verus!
