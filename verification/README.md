# simple3dgs

The logic of a desktop app that turns a video, or a folder of stills, into a
3D Gaussian splat:

```
Video → FFmpeg frames → COLMAP poses → Brush training → Spark viewer
```

## Layout

- `src/` — the library, verified with Verus. Public functions state what
  they return in `requires` / `ensures`, except where the answer comes from
  outside the program (a shared cancel flag, a mutex, the disk, the clock):
  there the contract states what holds of every answer, and a verified
  function one call down says what follows from each. Laws that span
  several functions are public proof functions named `law_*`.
  - log parsers for FFmpeg, COLMAP and Brush (`frame_log`, `colmap_log`,
    `train_log`), and the live snapshots built from them;
  - sidecar command lines (`ffmpeg`, `colmap`, `brush`) and the knob
    clamping behind them (`settings`, `colmap_knobs`);
  - COLMAP binary model readers (`colmap_pose`), keyframe picks
    (`keyframes`), project layout and stage markers (`project`, `paths`);
  - the splat archive's ids, titles and zip-entry safety (`archive`), the
    HTML export's escaping and scene payload (`html_export`);
  - helpers of the COLMAP bundling tool (`colmap_bundle`).
- `app/` — ordinary Rust around the library: the `colmap-bundle` command
  line, disk and process work, JSON (serde) copies of the library's types,
  image and EXIF reading, and the parts that compute on fractional numbers.
- `tests/` — tests of the library, run against the real outside crates.
