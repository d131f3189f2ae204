# gameterm_visual

The visual layer of GameTerm's Scene Mode: scene descriptions and their
validation, the runtime that selects entities and choices and resolves state
operations, scene patches, the compose transcript, and an image-asset editor
(masks, flood fills, morphology, painting, sampling, protected regions,
pipeline planning and argument checks).

Every function in `src/` is verified with Verus against a contract stated over
spec functions and views; the public `law_*` proof functions state the
properties that span several calls.

Layout:

- `src/` — the verified library. The scene and runtime logic lives in
  `scene_model`, `scene_check`, `resolve`, `patch`, `runtime`, `input`,
  `actions` and `compose`; the asset editor in `mask`, `components`, `raster`,
  `paint`, `sample`, `regions`, `states`, `pipeline_args`, `pipeline` and
  `asset_paths`. Calls into `image`, `sha2` and `std::path` stand behind
  small trusted wrappers in `asset_io` and `asset_paths`, each with a doc
  comment saying what it claims.
- `tests/` — tests of the library on concrete values.
- `app/` — file input and output, JSON with `serde`, error display with
  `thiserror`, and the floating-point image work (blending, transforms, tonal
  adjustments, normalised coordinates).
