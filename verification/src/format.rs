//! Model format detection from a file extension or the file's first bytes.

use vstd::prelude::*;
use crate::text::str_eq;

verus! {

/// Detected model format.
#[derive(Clone, Copy, Debug, PartialEq, Eq, Structural)]
pub enum ModelFormat {
    Cyb,
    Onnx,
    Safetensors,
    Gguf,
}

/// The format named by a file extension.
pub open spec fn spec_format_of_extension(ext: Seq<char>) -> Option<ModelFormat> {
    if ext == "cyb"@ {
        Some(ModelFormat::Cyb)
    } else if ext == "onnx"@ {
        Some(ModelFormat::Onnx)
    } else if ext == "safetensors"@ {
        Some(ModelFormat::Safetensors)
    } else if ext == "gguf"@ {
        Some(ModelFormat::Gguf)
    } else {
        None
    }
}

/// The format recognized from the first bytes of a file: "CYB\x01" or
/// "GGUF", else a protobuf field tag (0x08 or 0x0a) for ONNX; at least four
/// bytes are needed.
pub open spec fn spec_format_of_magic(m: Seq<u8>) -> Option<ModelFormat> {
    if m.len() < 4 {
        None
    } else if m[0] == 67 && m[1] == 89 && m[2] == 66 && m[3] == 1 {
        Some(ModelFormat::Cyb)
    } else if m[0] == 71 && m[1] == 71 && m[2] == 85 && m[3] == 70 {
        Some(ModelFormat::Gguf)
    } else if m[0] == 8 || m[0] == 10 {
        Some(ModelFormat::Onnx)
    } else {
        None
    }
}

/// The format named by a file extension, if any.
pub fn format_of_extension(ext: &str) -> (r: Option<ModelFormat>)
    ensures
        r == spec_format_of_extension(ext@),
{
    if str_eq(ext, "cyb") {
        Some(ModelFormat::Cyb)
    } else if str_eq(ext, "onnx") {
        Some(ModelFormat::Onnx)
    } else if str_eq(ext, "safetensors") {
        Some(ModelFormat::Safetensors)
    } else if str_eq(ext, "gguf") {
        Some(ModelFormat::Gguf)
    } else {
        None
    }
}

/// The format recognized from the first bytes read from a file.
pub fn format_of_magic(magic: &[u8]) -> (r: Option<ModelFormat>)
    ensures
        r == spec_format_of_magic(magic@),
{
    if magic.len() < 4 {
        None
    } else if magic[0] == 67 && magic[1] == 89 && magic[2] == 66 && magic[3] == 1 {
        Some(ModelFormat::Cyb)
    } else if magic[0] == 71 && magic[1] == 71 && magic[2] == 85 && magic[3] == 70 {
        Some(ModelFormat::Gguf)
    } else if magic[0] == 8 || magic[0] == 10 {
        Some(ModelFormat::Onnx)
    } else {
        None
    }
}

/// Detect the format: by extension first, then by the first bytes.
pub fn detect_format_from(ext: &str, magic: &[u8]) -> (r: Option<ModelFormat>)
    ensures
        r == match spec_format_of_extension(ext@) {
            Some(f) => Some(f),
            None => spec_format_of_magic(magic@),
        },
{
    match format_of_extension(ext) {
        Some(f) => Some(f),
        None => format_of_magic(magic),
    }
}

} // verus!
