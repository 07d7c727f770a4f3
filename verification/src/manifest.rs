//! Model manifest vocabulary: quantization levels, on-disk formats and
//! tiers, with their display names.

use vstd::prelude::*;

verus! {

/// Quantization level for a model.
#[derive(Clone, Copy, Debug, PartialEq, Eq, Structural)]
pub enum Quant {
    F16,
    Q8,
    Q4,
    /// Kept as shipped (1.58-bit, fasttext .bin).
    Native,
}

impl Quant {
    /// Display name.
    pub open spec fn spec_name(self) -> Seq<char> {
        match self {
            Quant::F16 => "f16"@,
            Quant::Q8 => "q8"@,
            Quant::Q4 => "q4"@,
            Quant::Native => "native"@,
        }
    }

    /// Display name ("f16", "q8", "q4", "native").
    pub fn as_str(&self) -> (r: &'static str)
        ensures
            r@ == self.spec_name(),
    {
        match self {
            Quant::F16 => "f16",
            Quant::Q8 => "q8",
            Quant::Q4 => "q4",
            Quant::Native => "native",
        }
    }
}

/// Runtime format on disk.
#[derive(Clone, Copy, Debug, PartialEq, Eq, Structural)]
pub enum Format {
    Safetensors,
    Onnx,
    Gguf,
    Ggml,
    Pytorch,
    /// Raw binary (fasttext, etc.).
    Bin,
}

impl Format {
    /// Display name.
    pub open spec fn spec_name(self) -> Seq<char> {
        match self {
            Format::Safetensors => "safetensors"@,
            Format::Onnx => "onnx"@,
            Format::Gguf => "gguf"@,
            Format::Ggml => "ggml"@,
            Format::Pytorch => "pytorch"@,
            Format::Bin => "bin"@,
        }
    }

    /// Display name ("safetensors", "onnx", "gguf", "ggml", "pytorch", "bin").
    pub fn as_str(&self) -> (r: &'static str)
        ensures
            r@ == self.spec_name(),
    {
        match self {
            Format::Safetensors => "safetensors",
            Format::Onnx => "onnx",
            Format::Gguf => "gguf",
            Format::Ggml => "ggml",
            Format::Pytorch => "pytorch",
            Format::Bin => "bin",
        }
    }
}

/// Tier in the model architecture.
#[derive(Clone, Copy, Debug, PartialEq, Eq, Structural)]
pub enum Tier {
    /// Always-on substrate.
    Tier0,
    /// Fast on-demand.
    Tier1,
    /// Quality on-demand.
    Tier2,
    /// Perception and generation media models.
    Media,
}

impl Tier {
    /// Display name.
    pub open spec fn spec_name(self) -> Seq<char> {
        match self {
            Tier::Tier0 => "tier0"@,
            Tier::Tier1 => "tier1"@,
            Tier::Tier2 => "tier2"@,
            Tier::Media => "media"@,
        }
    }

    /// Display name ("tier0", "tier1", "tier2", "media").
    pub fn as_str(&self) -> (r: &'static str)
        ensures
            r@ == self.spec_name(),
    {
        match self {
            Tier::Tier0 => "tier0",
            Tier::Tier1 => "tier1",
            Tier::Tier2 => "tier2",
            Tier::Media => "media",
        }
    }
}


/// A model the runtime targets.
pub struct Entry {
    pub name: &'static str,
    pub family: &'static str,
    pub role: &'static str,
    pub notes: &'static str,
}

/// The models the runtime targets, in order: name, family, role.
pub open spec fn runtime_models() -> Seq<(Seq<char>, Seq<char>, Seq<char>)> {
    seq![
        ("qwen3-0.6b-abl"@, "LlamaStyle"@, "router"@),
        ("qwen2.5-coder-1.5b-abl"@, "LlamaStyle"@, "code"@),
        ("qwen2.5-coder-14b-abl"@, "LlamaStyle"@, "code"@),
        ("gemma-4-31b"@, "LlamaStyle+"@, "general"@),
    ]
}

/// The manifest of models the runtime targets.
pub fn runtime_manifest() -> (r: Vec<Entry>)
    ensures
        r@.len() == runtime_models().len(),
        forall|i: int| 0 <= i < r@.len() ==> {
            let e = #[trigger] r@[i];
            (e.name@, e.family@, e.role@) == runtime_models()[i]
        },
{
    let v = vec![
        Entry {
            name: "qwen3-0.6b-abl",
            family: "LlamaStyle",
            role: "router",
            notes: "always-on classifier, qwen3 with qk_norm",
        },
        Entry {
            name: "qwen2.5-coder-1.5b-abl",
            family: "LlamaStyle",
            role: "code",
            notes: "small code model, qwen2 with attn_bias",
        },
        Entry {
            name: "qwen2.5-coder-14b-abl",
            family: "LlamaStyle",
            role: "code",
            notes: "large code model, needs fused Q4_K matmul to load",
        },
        Entry {
            name: "gemma-4-31b",
            family: "LlamaStyle+",
            role: "general",
            notes: "Gemma 3/4 extensions required (softcapping, sliding window, K=V)",
        },
    ];
    proof {
        assert forall|i: int| 0 <= i < v@.len() implies {
            let e = #[trigger] v@[i];
            (e.name@, e.family@, e.role@) == runtime_models()[i]
        } by {
            if i == 0 {
            } else if i == 1 {
            } else if i == 2 {
            } else {
            }
        }
    }
    v
}

} // verus!
