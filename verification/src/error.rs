//! User-facing pipeline errors. Sidecar failures include a recovery hint.

use vstd::prelude::*;

use crate::capture_mode::CaptureMode;
use crate::text::{
    all_ascii, chars_of, contains, lower_ascii, contains_str, int_str, lines, lines_exec, push_all,
    push_i32, push_str, starts_with, starts_with_str, string_from, to_lowercase, trim, trim_exec,
    unicode_lowercase,
};
use crate::train_log::{panic_markers, trainer_panicked};

verus! {

broadcast use vstd::string::group_string_axioms;

/// `std::io::Error`, carried through unchanged.
#[verifier::external_type_specification]
#[verifier::external_body]
pub struct ExIoError(std::io::Error);

#[derive(Debug)]
pub enum PipelineError {
    Message(String),
    Cancelled,
    Io(std::io::Error),
    Sidecar { tool: String, code: i32, hint: String },
}

// ---------------------------------------------------------------------------
// Hints
// ---------------------------------------------------------------------------

/// Capture-mode-specific advice when SfM cannot recover poses.
pub open spec fn pose_hint_text(mode: CaptureMode) -> Seq<char> {
    match mode {
        CaptureMode::Object => "Reconstruction could not estimate camera poses. Film a slower orbit with more overlap, less motion blur, and even lighting."@,
        CaptureMode::Room => "Reconstruction could not estimate camera poses. Walk slowly along the walls with more overlap, even lighting, and textured surfaces. Avoid empty walls, mirrors, and exposure jumps."@,
        CaptureMode::Outdoor => "Reconstruction could not estimate camera poses. Walk slowly with more overlap, keep the camera slightly tilted down to skip empty sky, and avoid wind-blown vegetation."@,
    }
}

/// Crash-dump lines (`@ 0x…`, `*** SIGABRT …`, `PC: …`).
pub open spec fn is_crash_noise(line: Seq<char>) -> bool {
    starts_with(line, "@"@) || starts_with(line, "***"@) || starts_with(line, "PC:"@)
}

/// The last trimmed line that is neither empty nor crash noise, scanning `ls`.
pub open spec fn last_useful_in(ls: Seq<Seq<char>>) -> Seq<char>
    decreases ls.len(),
{
    if ls.len() == 0 {
        seq![]
    } else {
        let t = trim(ls.last());
        if t.len() > 0 && !is_crash_noise(t) {
            t
        } else {
            last_useful_in(ls.drop_last())
        }
    }
}

/// A trimmed line worth quoting in a hint: not empty and not crash noise.
pub open spec fn is_useful(line: Seq<char>) -> bool {
    trim(line).len() > 0 && !is_crash_noise(trim(line))
}

/// The line quoted in a hint is the last useful line, trimmed: it is empty
/// exactly when no line is useful, and otherwise no later line is useful.
pub proof fn law_hint_quotes_the_last_useful_line(ls: Seq<Seq<char>>)
    ensures
        last_useful_in(ls).len() == 0 <==> forall|i: int| 0 <= i < ls.len() ==> !#[trigger] is_useful(ls[i]),
        last_useful_in(ls).len() > 0 ==> exists|i: int|
            0 <= i < ls.len() && #[trigger] is_useful(ls[i]) && last_useful_in(ls) == trim(ls[i])
                && forall|j: int| i < j < ls.len() ==> !#[trigger] is_useful(ls[j]),
    decreases ls.len(),
{
    if ls.len() > 0 {
        let rest = ls.drop_last();
        law_hint_quotes_the_last_useful_line(rest);
        let n = ls.len() - 1;
        assert(ls[n] == ls.last());
        assert forall|i: int| 0 <= i < n implies ls[i] == rest[i] by {}
        if is_useful(ls.last()) {
        } else {
            if last_useful_in(rest).len() > 0 {
                let i = choose|i: int|
                    0 <= i < rest.len() && #[trigger] is_useful(rest[i]) && last_useful_in(rest)
                        == trim(rest[i]) && forall|j: int| i < j < rest.len() ==> !#[trigger] is_useful(rest[j]);
                assert(is_useful(ls[i]));
                assert forall|j: int| i < j < ls.len() implies !#[trigger] is_useful(ls[j]) by {
                    if j < n {
                        assert(ls[j] == rest[j]);
                    }
                }
            } else {
                assert forall|i: int| 0 <= i < ls.len() implies !#[trigger] is_useful(ls[i]) by {
                    if i < n {
                        assert(ls[i] == rest[i]);
                    }
                }
            }
        }
    }
}

/// The last useful line of a sidecar log (empty when there is none).
pub open spec fn last_useful_line(log: Seq<char>) -> Seq<char> {
    last_useful_in(lines(log))
}

/// GPU SIFT could not start, judged on the lower-cased log.
pub open spec fn metal_markers(lower: Seq<char>) -> bool {
    ||| contains(lower, "failed to initialize metal"@)
    ||| contains(lower, "failed to load metal library"@)
    ||| contains(lower, "siftmetal"@)
    ||| contains(lower, "sift.metallib"@)
    ||| contains(lower, "qt.qpa.plugin"@)
    ||| contains(lower, "qt platform plugin"@)
}

/// CPU matching aborted (FAISS, or a SIGSEGV/SIGABRT while matching), judged
/// on the lower-cased log.
pub open spec fn faiss_markers(lower: Seq<char>) -> bool {
    let matching = contains(lower, "feature matching"@) || contains(lower, "feature matcher"@)
        || contains(lower, "processing block"@);
    matching && (contains(lower, "faissexception"@) || contains(lower, "faiss::"@) || contains(
        lower,
        "sigsegv"@,
    ) || contains(lower, "sigabrt"@))
}

pub open spec fn metal_hint_prefix() -> Seq<char> {
    "COLMAP GPU SIFT is unavailable. Homebrew COLMAP crashes on Qt/OpenGL; Metal needs sift.metallib from scripts/fetch-sidecars.sh --colmap-metal. Or switch SIFT to CPU in Expert settings. "@
}

pub open spec fn faiss_hint_prefix() -> Seq<char> {
    "COLMAP CPU matching crashed in FAISS. Retry; matching now uses Eigen brute-force instead of FAISS. Switching SIFT to CPU is not enough. "@
}

/// Nothing occurs in empty text.
proof fn lemma_nothing_in_empty(p: Seq<char>)
    requires
        p.len() > 0,
    ensures
        !contains(Seq::<char>::empty(), p),
{
}

/// An empty log gives the capture advice alone.
pub proof fn lemma_empty_log_hint(mode: CaptureMode)
    ensures
        colmap_hint(Seq::<char>::empty(), lower_ascii(Seq::<char>::empty()), mode)
            == pose_hint_text(mode),
{
    let e = Seq::<char>::empty();
    assert(lower_ascii(e) =~= e);
    assert(lines(e) =~= Seq::<Seq<char>>::empty());
    assert(last_useful_line(e) =~= e);
    reveal_strlit("unrecognised option");
    reveal_strlit("Failed to parse");
    reveal_strlit("Library not loaded");
    reveal_strlit("dyld");
    reveal_strlit("failed to initialize metal");
    reveal_strlit("failed to load metal library");
    reveal_strlit("siftmetal");
    reveal_strlit("sift.metallib");
    reveal_strlit("qt.qpa.plugin");
    reveal_strlit("qt platform plugin");
    reveal_strlit("feature matching");
    reveal_strlit("feature matcher");
    reveal_strlit("processing block");
    lemma_nothing_in_empty("unrecognised option"@);
    lemma_nothing_in_empty("Failed to parse"@);
    lemma_nothing_in_empty("Library not loaded"@);
    lemma_nothing_in_empty("dyld"@);
    lemma_nothing_in_empty("failed to initialize metal"@);
    lemma_nothing_in_empty("failed to load metal library"@);
    lemma_nothing_in_empty("siftmetal"@);
    lemma_nothing_in_empty("sift.metallib"@);
    lemma_nothing_in_empty("qt.qpa.plugin"@);
    lemma_nothing_in_empty("qt platform plugin"@);
    lemma_nothing_in_empty("feature matching"@);
    lemma_nothing_in_empty("feature matcher"@);
    lemma_nothing_in_empty("processing block"@);
}

/// COLMAP hint from the log and its lower-cased copy: flag errors, GPU SIFT
/// and FAISS crashes and dyld failures are named; otherwise the capture advice.
pub open spec fn colmap_hint(log: Seq<char>, lower: Seq<char>, mode: CaptureMode) -> Seq<char> {
    let last = last_useful_line(log);
    if contains(last, "unrecognised option"@) || contains(last, "Failed to parse"@) {
        "COLMAP rejected a command flag. "@ + last
    } else if metal_markers(lower) {
        metal_hint_prefix() + last
    } else if faiss_markers(lower) {
        faiss_hint_prefix() + last
    } else if contains(last, "Library not loaded"@) || contains(last, "dyld"@) {
        "COLMAP could not load a library. "@ + last
    } else if last.len() == 0 {
        pose_hint_text(mode)
    } else {
        pose_hint_text(mode) + " ("@ + last + ")"@
    }
}

/// FFmpeg's select-expression parser rejected the keyframe filter.
pub open spec fn select_expr_failed(log: Seq<char>) -> bool {
    contains(log, "Error while parsing expression"@) || (contains(log, "Parsed_select"@)
        && contains(log, "Cannot allocate memory"@))
}

pub open spec fn ffmpeg_hint(log: Seq<char>) -> Seq<char> {
    if select_expr_failed(log) {
        "FFmpeg could not parse the keyframe select filter. Retry the run; if it keeps failing, lower max frames."@
    } else {
        "Could not read the video. Try MP4/MOV, or replace the bundled ffmpeg sidecar."@
    }
}

pub open spec fn brush_hint(log: Seq<char>) -> Seq<char> {
    if panic_markers(log) {
        "Brush's GPU trainer panicked in Burn fusion. The CLI still reports Done training. Retry the run; if it keeps failing, lower max splats or train resolution."@
    } else {
        "Training stopped early. Check GPU/Metal availability and free memory (16 GB RAM minimum)."@
    }
}

pub open spec fn permission_text(path: Seq<char>) -> Seq<char> {
    "macOS blocked access to "@ + path
        + ". Allow Simple 3DGS in System Settings → Privacy & Security → Files and Folders, or choose a different folder."@
}

/// `err` is a sidecar failure of `tool` with exit `code` and this hint.
pub open spec fn is_sidecar(err: PipelineError, tool: Seq<char>, code: i32, hint: Seq<char>) -> bool {
    err matches PipelineError::Sidecar { tool: t, code: c, hint: h } && t@ == tool && c == code
        && h@ == hint
}

/// The display text of an error (the `thiserror` messages), except for the
/// I/O case, whose tail is std's rendering of the `io::Error`.
pub open spec fn message_text(err: PipelineError) -> Seq<char> {
    match err {
        PipelineError::Message(t) => t@,
        PipelineError::Cancelled => "Cancelled"@,
        PipelineError::Io(_) => "I/O error: "@,
        PipelineError::Sidecar { tool, code, hint } => tool@ + " failed (exit "@ + int_str(
            code as int,
        ) + "). "@ + hint@,
    }
}

fn pose_hint(mode: CaptureMode) -> (r: &'static str)
    ensures
        r@ == pose_hint_text(mode),
{
    match mode {
        CaptureMode::Object => {
            "Reconstruction could not estimate camera poses. Film a slower orbit with more overlap, less motion blur, and even lighting."
        },
        CaptureMode::Room => {
            "Reconstruction could not estimate camera poses. Walk slowly along the walls with more overlap, even lighting, and textured surfaces. Avoid empty walls, mirrors, and exposure jumps."
        },
        CaptureMode::Outdoor => {
            "Reconstruction could not estimate camera poses. Walk slowly with more overlap, keep the camera slightly tilted down to skip empty sky, and avoid wind-blown vegetation."
        },
    }
}

fn is_crash_noise_chars(line: &[char]) -> (r: bool)
    ensures
        r == is_crash_noise(line@),
{
    starts_with_str(line, "@") || starts_with_str(line, "***") || starts_with_str(line, "PC:")
}

fn last_useful_line_chars(log: &[char]) -> (r: Vec<char>)
    ensures
        r@ == last_useful_line(log@),
{
    let ls = lines_exec(log);
    let ghost all = ls.deep_view();
    let mut j = ls.len();
    assert(all.take(ls@.len() as int) =~= all);
    while j > 0
        invariant
            j <= ls@.len(),
            all == ls.deep_view(),
            all == lines(log@),
            last_useful_in(all.take(j as int)) == last_useful_in(all),
        decreases j,
    {
        let t = trim_exec(&ls[j - 1]);
        let ghost pre = all.take(j as int);
        assert(pre.last() =~= ls@[j - 1]@);
        assert(pre.drop_last() =~= all.take(j - 1));
        assert(t@ == trim(pre.last()));
        if t.len() > 0 && !is_crash_noise_chars(&t) {
            assert(last_useful_in(pre) == t@);
            return t;
        }
        j -= 1;
    }
    assert(all.take(0) =~= Seq::<Seq<char>>::empty());
    assert(all.take(ls@.len() as int) =~= all);
    Vec::new()
}

/// True when GPU SIFT could not start: missing Metal sidecar or Homebrew Qt/OpenGL abort.
/// `lower` is the lower-cased log.
pub fn metal_sift_markers(lower: &str) -> (r: bool)
    ensures
        r == metal_markers(lower@),
{
    let l = chars_of(lower);
    contains_str(&l, "failed to initialize metal") || contains_str(&l, "failed to load metal library")
        || contains_str(&l, "siftmetal") || contains_str(&l, "sift.metallib") || contains_str(
        &l,
        "qt.qpa.plugin",
    ) || contains_str(&l, "qt platform plugin")
}

/// True when CPU matching aborted (FAISS IVF k>0, or OpenMP/OpenBLAS SIGSEGV).
/// `lower` is the lower-cased log.
pub fn faiss_abort_markers(lower: &str) -> (r: bool)
    ensures
        r == faiss_markers(lower@),
{
    let l = chars_of(lower);
    let matching = contains_str(&l, "feature matching") || contains_str(&l, "feature matcher")
        || contains_str(&l, "processing block");
    if !matching {
        return false;
    }
    contains_str(&l, "faissexception") || contains_str(&l, "faiss::") || contains_str(&l, "sigsegv")
        || contains_str(&l, "sigabrt")
}

/// True when GPU SIFT could not start, judged on the Unicode-lower-cased log.
pub fn metal_sift_unavailable(log: &str) -> (r: bool)
    ensures
        r == metal_markers(unicode_lowercase(log@)),
{
    let lower = to_lowercase(log);
    metal_sift_markers(lower.as_str())
}

/// True when CPU matching aborted, judged on the Unicode-lower-cased log.
pub fn faiss_matcher_aborted(log: &str) -> (r: bool)
    ensures
        r == faiss_markers(unicode_lowercase(log@)),
{
    let lower = to_lowercase(log);
    faiss_abort_markers(lower.as_str())
}

/// COLMAP hint from the log and its lower-cased copy `lower`.
pub fn colmap_hint_for(log: &str, lower: &str, mode: CaptureMode) -> (r: String)
    ensures
        r@ == colmap_hint(log@, lower@, mode),
{
    let lv = chars_of(log);
    let last = last_useful_line_chars(&lv);
    let mut out: Vec<char> = Vec::new();
    if contains_str(&last, "unrecognised option") || contains_str(&last, "Failed to parse") {
        push_str(&mut out, "COLMAP rejected a command flag. ");
        push_all(&mut out, &last);
    } else if metal_sift_markers(lower) {
        push_str(
            &mut out,
            "COLMAP GPU SIFT is unavailable. Homebrew COLMAP crashes on Qt/OpenGL; Metal needs sift.metallib from scripts/fetch-sidecars.sh --colmap-metal. Or switch SIFT to CPU in Expert settings. ",
        );
        push_all(&mut out, &last);
    } else if faiss_abort_markers(lower) {
        push_str(
            &mut out,
            "COLMAP CPU matching crashed in FAISS. Retry; matching now uses Eigen brute-force instead of FAISS. Switching SIFT to CPU is not enough. ",
        );
        push_all(&mut out, &last);
    } else if contains_str(&last, "Library not loaded") || contains_str(&last, "dyld") {
        push_str(&mut out, "COLMAP could not load a library. ");
        push_all(&mut out, &last);
    } else if last.len() == 0 {
        push_str(&mut out, pose_hint(mode));
    } else {
        push_str(&mut out, pose_hint(mode));
        push_str(&mut out, " (");
        push_all(&mut out, &last);
        push_str(&mut out, ")");
    }
    string_from(&out)
}

impl PipelineError {
    pub fn message(text: String) -> (r: Self)
        ensures
            r == PipelineError::Message(text),
    {
        PipelineError::Message(text)
    }

    /// Builds a COLMAP error; `log` is the sidecar tail so flag/dyld failures are not blamed on capture.
    pub fn colmap_failed_with(code: i32, log: &str, mode: CaptureMode) -> (r: Self)
        ensures
            is_sidecar(r, "COLMAP"@, code, colmap_hint(log@, unicode_lowercase(log@), mode)),
            all_ascii(log@) ==> is_sidecar(
                r,
                "COLMAP"@,
                code,
                colmap_hint(log@, lower_ascii(log@), mode),
            ),
            log@.len() == 0 ==> is_sidecar(r, "COLMAP"@, code, pose_hint_text(mode)),
    {
        proof {
            if log@.len() == 0 {
                assert(log@ =~= Seq::<char>::empty());
                lemma_empty_log_hint(mode);
            }
        }
        let lower = to_lowercase(log);
        let hint = colmap_hint_for(log, lower.as_str(), mode);
        PipelineError::Sidecar { tool: string_from(&chars_of("COLMAP")), code, hint }
    }

    pub fn ffmpeg_failed(code: i32) -> (r: Self)
        ensures
            is_sidecar(r, "FFmpeg"@, code, ffmpeg_hint(""@)),
    {
        Self::ffmpeg_failed_with(code, "")
    }

    /// Uses `log` so a select-filter parse abort is not reported as a bad video file.
    pub fn ffmpeg_failed_with(code: i32, log: &str) -> (r: Self)
        ensures
            is_sidecar(r, "FFmpeg"@, code, ffmpeg_hint(log@)),
    {
        let l = chars_of(log);
        let failed = contains_str(&l, "Error while parsing expression") || (contains_str(
            &l,
            "Parsed_select",
        ) && contains_str(&l, "Cannot allocate memory"));
        let hint = if failed {
            string_from(
                &chars_of(
                    "FFmpeg could not parse the keyframe select filter. Retry the run; if it keeps failing, lower max frames.",
                ),
            )
        } else {
            string_from(
                &chars_of(
                    "Could not read the video. Try MP4/MOV, or replace the bundled ffmpeg sidecar.",
                ),
            )
        };
        PipelineError::Sidecar { tool: string_from(&chars_of("FFmpeg")), code, hint }
    }

    pub fn brush_failed(code: i32) -> (r: Self)
        ensures
            is_sidecar(r, "Brush"@, code, brush_hint(""@)),
    {
        Self::brush_failed_with(code, "")
    }

    /// Uses `log` so a Burn fusion panic is not reported as a clean Metal/RAM failure.
    pub fn brush_failed_with(code: i32, log: &str) -> (r: Self)
        ensures
            is_sidecar(r, "Brush"@, code, brush_hint(log@)),
    {
        let hint = if trainer_panicked(log) {
            string_from(
                &chars_of(
                    "Brush's GPU trainer panicked in Burn fusion. The CLI still reports Done training. Retry the run; if it keeps failing, lower max splats or train resolution.",
                ),
            )
        } else {
            string_from(
                &chars_of(
                    "Training stopped early. Check GPU/Metal availability and free memory (16 GB RAM minimum).",
                ),
            )
        };
        PipelineError::Sidecar { tool: string_from(&chars_of("Brush")), code, hint }
    }

    /// Error for an I/O failure on `path`, given whether the OS denied permission.
    pub fn from_io_kind(err: std::io::Error, path: &str, permission_denied: bool) -> (r: Self)
        ensures
            permission_denied ==> (r matches PipelineError::Message(t) && t@ == permission_text(
                path@,
            )),
            !permission_denied ==> r == PipelineError::Io(err),
    {
        if permission_denied {
            let mut out: Vec<char> = Vec::new();
            push_str(&mut out, "macOS blocked access to ");
            push_str(&mut out, path);
            push_str(
                &mut out,
                ". Allow Simple 3DGS in System Settings → Privacy & Security → Files and Folders, or choose a different folder.",
            );
            PipelineError::Message(string_from(&out))
        } else {
            PipelineError::Io(err)
        }
    }

    /// Attaches `path` when macOS TCC denies Documents/Desktop/Downloads.
    pub fn from_io_path(err: std::io::Error, path: &str) -> (r: Self)
        ensures
            r == PipelineError::Io(err) || (r matches PipelineError::Message(t) && t@
                == permission_text(path@)),
    {
        let denied = io_permission_denied(&err);
        Self::from_io_kind(err, path, denied)
    }

    /// The user-facing message (what `Display` printed).
    pub fn to_message(&self) -> (r: String)
        ensures
            match self {
                PipelineError::Io(_) => starts_with(r@, message_text(*self)),
                _ => r@ == message_text(*self),
            },
    {
        match self {
            PipelineError::Message(t) => t.clone(),
            PipelineError::Cancelled => string_from(&chars_of("Cancelled")),
            PipelineError::Io(e) => {
                let mut out: Vec<char> = chars_of("I/O error: ");
                let detail = io_error_text(e);
                push_str(&mut out, detail.as_str());
                proof {
                    assert(out@.take("I/O error: "@.len() as int) =~= "I/O error: "@);
                }
                string_from(&out)
            },
            PipelineError::Sidecar { tool, code, hint } => {
                let mut out: Vec<char> = chars_of(tool.as_str());
                push_str(&mut out, " failed (exit ");
                push_i32(&mut out, *code);
                push_str(&mut out, "). ");
                push_str(&mut out, hint.as_str());
                string_from(&out)
            },
        }
    }
}

/// `io::Error::kind() == ErrorKind::PermissionDenied`. Nothing is stated of
/// the result: the kind sits inside the opaque `io::Error`.
#[verifier::external_body]
fn io_permission_denied(err: &std::io::Error) -> bool {
    err.kind() == std::io::ErrorKind::PermissionDenied
}

/// std's `Display` rendering of an `io::Error`. Nothing is stated of the
/// text: it comes from the operating system's error table.
#[verifier::external_body]
fn io_error_text(err: &std::io::Error) -> String {
    format!("{err}")
}

} // verus!
