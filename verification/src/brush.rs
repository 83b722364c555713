//! The Brush training command: its argument order, splat cap, checkpoint and
//! refine cadence, and the optional resolution cap.
//!
//! The fractional Brush knobs (learning rates, weights, background colour)
//! arrive already written as argument text.

use vstd::prelude::*;

use crate::capture_mode::CaptureMode;
use crate::settings::{clamp, clamp_exec, sane_max_image_size, sanitized_max_image_size};
use crate::sidecar::{args_view, path_arg, CommandSpec};
use crate::text::{dec_str, dec_string};

verus! {

pub const EXPORT_NAME: &'static str = "export_{iter}.ply";

/// How often Brush writes a PLY so the viewer can show a live preview.
pub fn preview_export_every(train_steps: u32) -> (r: u32)
    ensures
        r == clamp(train_steps / 10, 250, 1000),
{
    let v = train_steps / 10;
    if v < 250 {
        250
    } else if v > 1000 {
        1000
    } else {
        v
    }
}

/// Refine about once per scene-covering set of views. Rooms with many frames stay at 200.
/// The frame count is taken modulo 2^32 first, as a `u32` cast does.
pub fn refine_every(frame_count: usize) -> (r: u32)
    ensures
        r == clamp(frame_count as u32, 50, 200),
{
    let n = frame_count as u32;
    if n < 50 {
        50
    } else if n > 200 {
        200
    } else {
        n
    }
}

/// `--export-every`: the Brush knob, or the preview cadence when the knob is `0`.
pub fn export_cadence(export_every: u32, train_steps: u32) -> (r: u32)
    ensures
        r == if export_every == 0 {
            clamp(train_steps / 10, 250, 1000)
        } else {
            export_every
        },
{
    if export_every == 0 {
        preview_export_every(train_steps)
    } else {
        export_every
    }
}

/// `--refine-every`: the Brush knob, or the frame-count heuristic when the knob is `0`.
pub fn refine_cadence(refine_every_knob: u32, frame_count: usize) -> (r: u32)
    ensures
        r == if refine_every_knob == 0 {
            clamp(frame_count as u32, 50, 200)
        } else {
            refine_every_knob
        },
{
    if refine_every_knob == 0 {
        refine_every(frame_count)
    } else {
        refine_every_knob
    }
}

/// The whole-number Brush knobs: refine and export cadence, growth stop,
/// spherical-harmonics degree, seed, evaluation cadence, level-of-detail
/// settings and the training resolution cap.
#[derive(Debug, Clone, Copy, PartialEq, Eq, Structural)]
pub struct BrushSchedule {
    pub refine_every: u32,
    pub growth_stop_iter: u32,
    pub sh_degree: u32,
    pub seed: u32,
    pub eval_every: u32,
    pub export_every: u32,
    pub lod_levels: u32,
    pub lod_refine_steps: u32,
    pub lod_decimation_keep: u32,
    pub lod_image_scale: u32,
    pub train_max_resolution: u32,
}

pub open spec fn at_most(v: u32, hi: u32) -> u32 {
    if v > hi {
        hi
    } else {
        v
    }
}

/// The schedule clamped to ranges Brush survives; the seed is kept as is.
pub open spec fn schedule_clamped(k: BrushSchedule) -> BrushSchedule {
    BrushSchedule {
        refine_every: at_most(k.refine_every, 100_000),
        growth_stop_iter: at_most(k.growth_stop_iter, 1_000_000),
        sh_degree: at_most(k.sh_degree, 5),
        seed: k.seed,
        eval_every: if k.eval_every < 1 {
            1
        } else {
            k.eval_every
        },
        export_every: at_most(k.export_every, 1_000_000),
        lod_levels: at_most(k.lod_levels, 16),
        lod_refine_steps: at_most(k.lod_refine_steps, 1_000_000),
        lod_decimation_keep: clamp(k.lod_decimation_keep, 1, 100),
        lod_image_scale: clamp(k.lod_image_scale, 1, 100),
        train_max_resolution: sane_max_image_size(k.train_max_resolution),
    }
}

fn at_most_exec(v: u32, hi: u32) -> (r: u32)
    ensures
        r == at_most(v, hi),
{
    if v > hi {
        hi
    } else {
        v
    }
}

impl BrushSchedule {
    /// Clamps the whole-number knobs to ranges the CLI can survive.
    pub fn sanitized(self) -> (r: Self)
        ensures
            r == schedule_clamped(self),
    {
        BrushSchedule {
            refine_every: at_most_exec(self.refine_every, 100_000),
            growth_stop_iter: at_most_exec(self.growth_stop_iter, 1_000_000),
            sh_degree: at_most_exec(self.sh_degree, 5),
            seed: self.seed,
            eval_every: if self.eval_every < 1 {
                1
            } else {
                self.eval_every
            },
            export_every: at_most_exec(self.export_every, 1_000_000),
            lod_levels: at_most_exec(self.lod_levels, 16),
            lod_refine_steps: at_most_exec(self.lod_refine_steps, 1_000_000),
            lod_decimation_keep: clamp_exec(self.lod_decimation_keep, 1, 100),
            lod_image_scale: clamp_exec(self.lod_image_scale, 1, 100),
            train_max_resolution: sanitized_max_image_size(self.train_max_resolution),
        }
    }
}

/// Clamping the schedule twice changes nothing more than clamping it once.
pub proof fn law_schedule_sanitize_idempotent(k: BrushSchedule)
    ensures
        schedule_clamped(schedule_clamped(k)) == schedule_clamped(k),
{
}

/// The argv of a headless training run: dataset in, numbered PLY checkpoints
/// out, then the knob arguments as given, then the optional resolution cap.
pub open spec fn train_argv(
    dataset_dir: Seq<char>,
    export_dir: Seq<char>,
    steps: u32,
    max_splats: u32,
    export_every: u32,
    refine_every: u32,
    knob_args: Seq<Seq<char>>,
    max_resolution: Option<u32>,
) -> Seq<Seq<char>> {
    seq![
        dataset_dir,
        "--total-train-iters"@,
        dec_str(steps as nat),
        "--max-splats"@,
        dec_str(max_splats as nat),
        "--refine-every"@,
        dec_str(refine_every as nat),
        "--export-path"@,
        export_dir,
        "--export-name"@,
        EXPORT_NAME@,
        "--export-every"@,
        dec_str(export_every as nat),
    ] + knob_args + match max_resolution {
        Some(res) => seq!["--max-resolution"@, dec_str(res as nat)],
        None => seq![],
    }
}

/// Brush training on the dataset in `dataset_dir`, exporting checkpoints to
/// `export_dir` (which the runner watches for previews). The export and
/// refine cadences fall back to their heuristics when their knob is `0`.
pub fn train_args(
    dataset_dir: &str,
    export_dir: &str,
    steps: u32,
    max_splats: u32,
    export_every: u32,
    refine_every_knob: u32,
    frame_count: usize,
    knob_args: &Vec<String>,
    max_resolution: Option<u32>,
) -> (r: CommandSpec)
    ensures
        r.sidecar@ == "brush"@,
        args_view(r) == train_argv(
            dataset_dir@,
            export_dir@,
            steps,
            max_splats,
            if export_every == 0 {
                clamp(steps / 10, 250, 1000)
            } else {
                export_every
            },
            if refine_every_knob == 0 {
                clamp(frame_count as u32, 50, 200)
            } else {
                refine_every_knob
            },
            knob_args@.map_values(|a: String| a@),
            max_resolution,
        ),
        r.watch_dir matches Some(d) && d@ == export_dir@,
        r.capture_mode == CaptureMode::Object,
{
    let export = export_cadence(export_every, steps);
    let refine = refine_cadence(refine_every_knob, frame_count);
    let mut args: Vec<String> = vec![
        path_arg(dataset_dir),
        "--total-train-iters".to_owned(),
        dec_string(steps as u64),
        "--max-splats".to_owned(),
        dec_string(max_splats as u64),
        "--refine-every".to_owned(),
        dec_string(refine as u64),
        "--export-path".to_owned(),
        path_arg(export_dir),
        "--export-name".to_owned(),
        EXPORT_NAME.to_owned(),
        "--export-every".to_owned(),
        dec_string(export as u64),
    ];
    let ghost head = args@.map_values(|a: String| a@);
    assert(head =~= seq![
        dataset_dir@,
        "--total-train-iters"@,
        dec_str(steps as nat),
        "--max-splats"@,
        dec_str(max_splats as nat),
        "--refine-every"@,
        dec_str(refine as nat),
        "--export-path"@,
        export_dir@,
        "--export-name"@,
        EXPORT_NAME@,
        "--export-every"@,
        dec_str(export as nat),
    ]);
    let mut i: usize = 0;
    while i < knob_args.len()
        invariant
            i <= knob_args@.len(),
            args@.map_values(|a: String| a@) == head + knob_args@.map_values(|a: String| a@).take(
                i as int,
            ),
        decreases knob_args.len() - i,
    {
        args.push(knob_args[i].clone());
        proof {
            assert(knob_args@.map_values(|a: String| a@).take(i + 1) =~= knob_args@.map_values(
                |a: String| a@,
            ).take(i as int).push(knob_args@[i as int]@));
            assert(args@.map_values(|a: String| a@) =~= (head + knob_args@.map_values(
                |a: String| a@,
            ).take(i as int)).push(knob_args@[i as int]@));
        }
        i += 1;
    }
    proof {
        assert(knob_args@.map_values(|a: String| a@).take(knob_args@.len() as int)
            =~= knob_args@.map_values(|a: String| a@));
    }
    let ghost body = args@.map_values(|a: String| a@);
    if let Some(res) = max_resolution {
        args.push("--max-resolution".to_owned());
        args.push(dec_string(res as u64));
        assert(args@.map_values(|a: String| a@) =~= body + seq![
            "--max-resolution"@,
            dec_str(res as nat),
        ]);
    } else {
        assert(args@.map_values(|a: String| a@) =~= body + Seq::<Seq<char>>::empty());
    }
    let r = CommandSpec::new("brush", args).watching(export_dir);
    proof {
        assert(args_view(r) =~= train_argv(
            dataset_dir@,
            export_dir@,
            steps,
            max_splats,
            export,
            refine,
            knob_args@.map_values(|a: String| a@),
            max_resolution,
        ));
    }
    r
}

} // verus!
