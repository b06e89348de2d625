# albert-train

The trainer of ALBERT, a mixture-of-experts language model that grows while it learns.

`src/` is a library, verified with Verus. It holds what the trainer decides; fractions reach it as
the bits of their IEEE 754 form, and tensors as names and shapes.

- `text`, `numerals`, `fraction`: texts, decimal numbers, comparing fractions
- `names`: the grammar of tensor names
- `json`, `config`, `shape`: the model's configuration, through `serde_json`
- `checkpoint`, `growth`, `cord`, `resurrection`, `fusion`, `surgery_laws`: which tensors a model
  has after it was loaded, grew by a layer, was split into two streams, or had an expert revived
- `seeding`: breaking the symmetry between experts
- `corpus`, `sampling`: the corpus, its cache, and windows of it
- `flags`, `paths`: the command line and the files of a run
- `schedule`, `steps`, `burst`, `cascade`, `watch`, `streaks`, `progress`: the state of a training
  run, and what is done at each batch and epoch
- `clock`, `telemetry`: the lines of the log

Proof functions whose names start with `law_` state what holds across functions.

`app/` is the program around the library: tensors, files, the device and all floating point. It
takes the model itself from the crate `moe_llm_core`.

`tests/` runs the library.
