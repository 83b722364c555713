//! Sidecar command specs and the shared cancel flag.

use vstd::prelude::*;

use crate::capture_mode::CaptureMode;
use crate::error::PipelineError;

use std::sync::atomic::{AtomicBool, Ordering};
use std::sync::Arc;

verus! {

broadcast use vstd::string::group_string_axioms;

/// One sidecar invocation: the bundled tool's name, its argv, the folder to
/// watch for previews, and the capture mode for failure hints.
#[derive(Debug, Clone, PartialEq, Eq)]
pub struct CommandSpec {
    pub sidecar: &'static str,
    pub args: Vec<String>,
    pub watch_dir: Option<String>,
    pub capture_mode: CaptureMode,
}

/// The argv of a spec as text.
pub open spec fn args_view(spec: CommandSpec) -> Seq<Seq<char>> {
    spec.args@.map_values(|a: String| a@)
}

impl CommandSpec {
    pub fn new(sidecar: &'static str, args: Vec<String>) -> (r: Self)
        ensures
            r.sidecar == sidecar,
            r.args == args,
            r.watch_dir is None,
            r.capture_mode == CaptureMode::Object,
    {
        Self { sidecar, args, watch_dir: None, capture_mode: CaptureMode::Object }
    }

    pub fn watching(self, dir: &str) -> (r: Self)
        ensures
            r.sidecar == self.sidecar,
            r.args == self.args,
            r.watch_dir matches Some(d) && d@ == dir@,
            r.capture_mode == self.capture_mode,
    {
        let mut s = self;
        s.watch_dir = Some(dir.to_owned());
        s
    }

    /// Attaches the capture mode so COLMAP failures can hint the right reshoot advice.
    pub fn capture(self, mode: CaptureMode) -> (r: Self)
        ensures
            r.sidecar == self.sidecar,
            r.args == self.args,
            r.watch_dir == self.watch_dir,
            r.capture_mode == mode,
    {
        let mut s = self;
        s.capture_mode = mode;
        s
    }
}

/// A path as an argv entry.
pub fn path_arg(path: &str) -> (r: String)
    ensures
        r@ == path@,
{
    path.to_owned()
}

/// Cancellation shared between the UI thread and the pipeline worker.
#[derive(Clone)]
pub struct CancelFlag {
    inner: Arc<AtomicBool>,
}

impl CancelFlag {
    pub fn new() -> (r: Self) {
        Self { inner: Arc::new(AtomicBool::new(false)) }
    }

    pub fn cancel(&self) {
        self.inner.store(true, Ordering::SeqCst);
    }

    pub fn reset(&self) {
        self.inner.store(false, Ordering::SeqCst);
    }

    pub fn is_cancelled(&self) -> bool {
        self.inner.load(Ordering::SeqCst)
    }

    /// `Err(Cancelled)` exactly when the flag reads as set. The read is of a
    /// flag other threads share, so which of the two comes back is not stated;
    /// [`cancelled_outcome`] says what each reading gives.
    pub fn check(&self) -> (r: Result<(), PipelineError>)
        ensures
            r is Ok || r == Err::<(), PipelineError>(PipelineError::Cancelled),
    {
        cancelled_outcome(self.is_cancelled())
    }
}

/// What a cancellation check reports for a reading of the flag.
pub fn cancelled_outcome(cancelled: bool) -> (r: Result<(), PipelineError>)
    ensures
        cancelled ==> r == Err::<(), PipelineError>(PipelineError::Cancelled),
        !cancelled ==> r == Ok::<(), PipelineError>(()),
{
    if cancelled {
        Err(PipelineError::Cancelled)
    } else {
        Ok(())
    }
}

/// Drives sidecars for the pipeline; holds the cancel flag it checks.
pub struct ProcessRunner {
    pub cancel: CancelFlag,
}

impl ProcessRunner {
    pub fn new(cancel: CancelFlag) -> (r: Self)
        ensures
            r.cancel == cancel,
    {
        Self { cancel }
    }
}

/// What the runner does after one poll of a running sidecar.
#[derive(Debug, Clone, Copy, PartialEq, Eq, Structural)]
pub enum PollStep {
    /// Cancelled: kill the process and report the cancellation.
    Kill,
    /// The process exited: collect the rest of its output.
    Exited,
    /// Still running: drain output, count the tick, and look for a new
    /// preview when `preview` is set, then wait.
    Wait { ticks: u32, preview: bool },
}

/// One poll of a running sidecar: cancellation wins over exit; while it
/// runs, the tick counter advances (saturating) and every 10th tick checks
/// for a new preview.
pub fn poll_step(cancelled: bool, exited: bool, ticks: u32) -> (r: PollStep)
    ensures
        cancelled ==> r == PollStep::Kill,
        !cancelled && exited ==> r == PollStep::Exited,
        !cancelled && !exited ==> ({
            let next: u32 = if ticks < u32::MAX {
                (ticks + 1) as u32
            } else {
                u32::MAX
            };
            r == PollStep::Wait { ticks: next, preview: next % 10 == 0 }
        }),
{
    if cancelled {
        PollStep::Kill
    } else if exited {
        PollStep::Exited
    } else {
        let next = ticks.saturating_add(1);
        PollStep::Wait { ticks: next, preview: next % 10 == 0 }
    }
}

/// How the runner reports a failed sidecar: the tool's own error, or a
/// generic sidecar error for other tools.
pub fn failure_for(spec: &CommandSpec, code: i32, tail: &str) -> (r: PipelineError)
    ensures
        spec.sidecar@ == "ffmpeg"@ ==> crate::error::is_sidecar(
            r,
            "FFmpeg"@,
            code,
            crate::error::ffmpeg_hint(""@),
        ),
        spec.sidecar@ == "colmap"@ ==> crate::error::is_sidecar(
            r,
            "COLMAP"@,
            code,
            crate::error::colmap_hint(tail@, crate::text::unicode_lowercase(tail@), spec.capture_mode),
        ),
        spec.sidecar@ == "brush"@ ==> crate::error::is_sidecar(
            r,
            "Brush"@,
            code,
            crate::error::brush_hint(""@),
        ),
        spec.sidecar@ != "ffmpeg"@ && spec.sidecar@ != "colmap"@ && spec.sidecar@ != "brush"@
            ==> crate::error::is_sidecar(
            r,
            spec.sidecar@,
            code,
            "The sidecar exited with an error."@,
        ),
{
    proof {
        reveal_strlit("ffmpeg");
        reveal_strlit("colmap");
        reveal_strlit("brush");
        assert("ffmpeg"@[0] != "colmap"@[0]);
        assert("ffmpeg"@.len() != "brush"@.len());
        assert("colmap"@.len() != "brush"@.len());
    }
    if crate::text::str_is(spec.sidecar, "ffmpeg") {
        PipelineError::ffmpeg_failed(code)
    } else if crate::text::str_is(spec.sidecar, "colmap") {
        PipelineError::colmap_failed_with(code, tail, spec.capture_mode)
    } else if crate::text::str_is(spec.sidecar, "brush") {
        PipelineError::brush_failed(code)
    } else {
        PipelineError::Sidecar {
            tool: spec.sidecar.to_owned(),
            code,
            hint: crate::text::string_from(&crate::text::chars_of("The sidecar exited with an error.")),
        }
    }
}

/// Keeps the last 40 lines of sidecar output for failure hints.
pub open spec fn tail_after(tail: Seq<Seq<char>>, line: Seq<char>) -> Seq<Seq<char>> {
    let t = tail.push(line);
    if t.len() > 40 {
        t.drop_first()
    } else {
        t
    }
}

pub fn remember(tail: &mut Vec<String>, line: String)
    ensures
        final(tail)@.map_values(|s: String| s@) == tail_after(
            old(tail)@.map_values(|s: String| s@),
            line@,
        ),
{
    let ghost before = tail@.map_values(|s: String| s@);
    tail.push(line);
    assert(tail@.map_values(|s: String| s@) =~= before.push(line@));
    if tail.len() > 40 {
        tail.remove(0);
        assert(tail@.map_values(|s: String| s@) =~= before.push(line@).drop_first());
    }
}

} // verus!
