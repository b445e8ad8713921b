# editor_core

The core of a video editor, written in Verus: the data model of a draft, its
normalization and timing, the state of a frame, text layout, the runtime
registries of sessions and handles, the view data the timeline shows, and the
compiler that turns a render plan into FFmpeg filter scripts, subtitle side
files and a command line. Every function in `src/` carries a contract that
Verus proves.

Layout:

- `src/text.rs`, `src/order.rs`: strings as character sequences (decimal
  rendering, comparison) and a stable ordering by keys.
- `src/engine/`: the draft model, keyframes and interpolation, time mapping of
  retimed segments, normalization of a draft, text layout and frame state.
- `src/runtime/`: runtime and project sessions, the handle registry, media
  and export jobs, selection and timeline view data, edits of text styles
  and of a segment's picture.
- `src/compiler/`: the FFmpeg job (profiles, capabilities, arguments), ASS
  side files, retime filters, the building blocks of the filter script,
  visual layers and transitions, the filter script itself (`script.rs`) and
  the whole compile of a plan into a job (`compile.rs`).
- `app/`: what stays outside verification: floating-point helpers (tempo
  chains, rotation bounds) and the job compile that hands them in, the
  process-wide session service, and copies of
  the error and capability types with serde and thiserror derives.
- `tests/`: scenarios run against the compiled library.

Laws that span several functions are public proof functions named `law_*`.
