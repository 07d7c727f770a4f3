//! Model IR, model-file formats and runtime helpers.

use vstd::prelude::*;

pub mod text;
pub mod namemap;
pub mod dtype;
pub mod ops;
pub mod atoms;
pub mod graph;
pub mod toposort;
pub mod liveness;
pub mod fusion;
pub mod fusion_pass;
pub mod templates;
pub mod jets;
pub mod executor;
pub mod kvcache;
pub mod manifest;
pub mod onnx;
pub mod quantize;
pub mod format;
pub mod gguf;
pub mod gguf_writer;
pub mod gguf_roundtrip;
pub mod safetensors;
pub mod import;
pub mod family;
pub mod vocab;
pub mod llama_config;
pub mod memplan;
pub mod ggml;
pub mod weights;
pub mod sampling;
pub mod npz;
pub mod pytorch;
pub mod model_file;
pub mod model_status;
pub mod scan;
pub mod graph_summary;
pub mod specials;
pub mod answer_check;
pub mod fasttext;
pub mod whisper;

verus! {

} // verus!
pub mod hf_config;
