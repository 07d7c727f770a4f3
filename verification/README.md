# cyb_model

A library for loading and describing language-model weights and compute
graphs, with its behaviour stated in Verus contracts and proved.

- `src/` is the verified library: the graph IR (`graph`, `toposort`,
  `liveness`, `fusion_pass`, `memplan`, `graph_summary`), the model
  templates (`templates`), the weight-file readers and writers (`gguf`,
  `gguf_writer`, `safetensors`, `ggml`, `npz`, `pytorch`, `fasttext`,
  `onnx`), the `.model` format (`format`, `manifest`, `model_file`,
  `import`, `hf_config`), configuration (`llama_config`, `family`), the jet registry
  (`jets`, `atoms`), and smaller helpers. Laws that relate several
  functions stand there as public proof functions (`lemma_*`).
- `tests/` runs the library on concrete inputs.
- `app/` is the command-line program around the library: file access,
  memory mapping, TOML and JSON parsing, floating-point kernels and output.

The NPZ reader takes ZIP entries stored as they are and entries compressed
with DEFLATE; it inflates the latter through `miniz_oxide`, the one
dependency that serves no other part of the program.
