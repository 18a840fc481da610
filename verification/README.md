# wgsl_ping_pong_pipeline

A pipelined compute cascade with isolated per-stage ping-pong buffers, with its
logic verified by Verus.

A pipeline is a linear chain of compute stages. Every stage owns a pair of
output buffers whose roles alternate with each tick: a stage reads what the
stage before it wrote in the tick before, so all stages of a tick may run at
the same time. A batch takes as many ticks through the pipeline as there are
stages, and its tag comes out with it. Buffers can be replaced by larger or
smaller ones while data is on its way.

## Layout

- `src/`: the verified library. It holds the state of a pipeline and decides
  what the device has to do; it does not talk to the device.
  - `pipeline/stage.rs`, `pipeline/pipeline_stage.rs`: standard and custom
    stages.
  - `pipeline/builder.rs`, `pipeline/ping_pong.rs`: pipelines of one size.
  - `pipeline/variable_size.rs`: pipelines with one size per stage.
  - `pipeline/state.rs`, `pipeline/variable_state.rs`: their states as
    mathematical values.
  - `pipeline/laws.rs`, `pipeline/variable_laws.rs`: what is proved of whole
    runs, over the model of buffer contents in `memory.rs`.
  - `plan.rs`: the commands that a pipeline hands out. `wgpu_utils.rs`: handles
    to the GPU and buffer usages. `side_inputs.rs`: buffers beside the data
    flow. `error.rs`: refusals and their messages.
- `app/`: a program that carries out the commands with wgpu.
- `tests/`: tests of the library. They simulate shaders on the host, and
  validate commands on wgpu's no-op device.

## Stages

A standard stage is one shader. It may bring the bind group layout of its
shader: of the bindings that the layout lists, in whatever order, the one with
the largest number gets the stage's output, and all others its input.

A stage that does more than dispatch one shader implements `PipelineStage`. It
has a name, sizes, `initialize` and `encode`. What it is told besides it may
ignore: `update_actual_total_elements` and `update_n`, in each tick before it
encodes its work, and `resize`, after buffers were replaced, where
`supports_dynamic_resizing` says so. The error of a stage comes back as
`PipelineError::Stage`.

## Building

`build` says what the pipeline needs of the device. `initialize` then hands the
stages the context that `with_context` set, or else a fresh one, which is needed
only where `needs_context` says so.

## Running a tick

```text
process(data, tag) ── Resize ──> replace all buffers, complete_resize, again
        │
       Run
        │
for each stage: stage_pass ──> dispatch or encode ──> stage_encoded
        │
readback ──> copy, submit, wait ──> finish_process ──> tag of the output
```

`write_input`, `tick`, `finish_tick`, `read_output` and `take_output` do the
same in separate steps.
