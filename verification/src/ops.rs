//! Operation types of the graph IR.
//!
//! Floating-point parameters (epsilons, RoPE bases, slopes, ...) are carried
//! as their IEEE-754 bit patterns: the graph logic only copies them, and the
//! numeric kernels that interpret them live outside the verified library.

use vstd::prelude::*;
use crate::dtype::DType;

verus! {

/// The IEEE-754 single-precision bit pattern of a floating-point parameter.
#[derive(Clone, Copy, Debug, PartialEq, Eq, Structural)]
pub struct F32Bits(pub u32);

/// Pooling mode for pool ops.
#[derive(Clone, Copy, Debug, PartialEq, Eq, Structural)]
pub enum PoolMode {
    Max,
    Avg,
}

/// Interpolation mode for spatial upsampling.
#[derive(Clone, Copy, Debug, PartialEq, Eq, Structural)]
pub enum InterpolateMode {
    Nearest,
    Bilinear,
    Area,
}

/// Sampling method for text generation.
#[derive(Clone, Copy, Debug, PartialEq, Eq, Structural)]
pub enum SampleMethod {
    Greedy,
    TopP(F32Bits),
    TopK(u32),
    TopKTopP(u32, F32Bits),
}

/// `a` is a copy of `b`: the same op, its lists holding the same values.
pub open spec fn same_op(a: Op, b: Op) -> bool {
    match b {
        Op::Transpose { perm } => a matches Op::Transpose { perm: p } && p@ == perm@,
        Op::Reshape { shape } => a matches Op::Reshape { shape: s } && s@ == shape@,
        Op::Permute { dims } => a matches Op::Permute { dims: d } && d@ == dims@,
        Op::Split { axis, sizes } => a matches Op::Split { axis: x, sizes: z } && x == axis && z@ == sizes@,
        _ => a == b,
    }
}

/// Operations that can appear in the computation graph.
#[derive(Debug)]
pub enum Op {
    Matmul,
    Add,
    Mul,
    Sub,
    Div,
    Transpose { perm: Vec<usize> },
    Reshape { shape: Vec<i64> },
    Permute { dims: Vec<usize> },
    Concat { axis: usize },
    Split { axis: usize, sizes: Vec<usize> },
    Chunk { axis: usize, chunks: usize },
    Clamp { min: Option<F32Bits>, max: Option<F32Bits> },
    NanToNum { nan: F32Bits, posinf: F32Bits, neginf: F32Bits },
    Sdpa { num_heads: u32, kv_heads: u32, head_dim: u32, causal: bool },
    SdpaCross { num_heads: u32, head_dim: u32 },
    SdpaWindow { num_heads: u32, head_dim: u32, window_size: u32 },
    KvCache,
    KvCompress { head_dim: u32, bits: u32 },
    KvDecompress { head_dim: u32, bits: u32 },
    Rope { head_dim: u32, base: F32Bits },
    SinusoidalEmbed { dim: u32 },
    RelativePosEmbedding { num_buckets: u32 },
    RmsNorm { eps: F32Bits },
    LayerNorm { eps: F32Bits },
    BatchNorm { eps: F32Bits, momentum: F32Bits },
    GroupNorm { num_groups: u32, eps: F32Bits },
    InstanceNorm { eps: F32Bits },
    AdaLN,
    Silu,
    Gelu { approximate: bool },
    GeGlu,
    SwiGlu,
    Glu,
    Relu,
    LeakyRelu { slope: F32Bits },
    PRelu,
    Sigmoid,
    Tanh,
    Softmax { dim: i32 },
    Conv1d { kernel: u32, stride: u32, padding: u32, groups: u32 },
    Conv2d { kernel: (u32, u32), stride: (u32, u32), padding: (u32, u32), groups: u32 },
    Conv3d {
        kernel: (u32, u32, u32),
        stride: (u32, u32, u32),
        padding: (u32, u32, u32),
        groups: u32,
    },
    ConvTranspose2d { kernel: (u32, u32), stride: (u32, u32), padding: (u32, u32) },
    CausalConv1d { kernel: u32 },
    DepthwiseConv { kernel: u32, stride: u32 },
    Pool { mode: PoolMode, kernel: (u32, u32) },
    Interpolate { mode: InterpolateMode, scale: F32Bits },
    PixelShuffle { upscale_factor: u32 },
    PixelUnshuffle { downscale_factor: u32 },
    PatchEmbed { patch_size: u32 },
    Unpatchify,
    TokenEmbed,
    PosEmbed,
    NoiseSchedule,
    FlowStep,
    Quantize { dtype: DType },
    Dequantize,
    Sample { method: SampleMethod },
    LoraApply { rank: u32, alpha: F32Bits },
    Kron,
    MatrixInverse,
    FusedNormMatmul { eps: F32Bits },
    FusedSkipNorm { eps: F32Bits },
    FusedSwiGlu,
    FlashAttention { num_heads: u32, kv_heads: u32, head_dim: u32 },
    Argmax,
}


fn clone_usizes(v: &Vec<usize>) -> (r: Vec<usize>)
    ensures
        r@ == v@,
{
    let r = v.clone();
    assert(r@ =~= v@);
    r
}

fn clone_i64s(v: &Vec<i64>) -> (r: Vec<i64>)
    ensures
        r@ == v@,
{
    let r = v.clone();
    assert(r@ =~= v@);
    r
}

impl Clone for Op {
    fn clone(&self) -> (r: Op)
        ensures
            (r is Sdpa) == (self is Sdpa),
            (r is SdpaCross) == (self is SdpaCross),
            self is Sdpa ==> r == *self,
            same_op(r, *self),
    {
        match self {
            Op::Matmul => Op::Matmul,
            Op::Add => Op::Add,
            Op::Mul => Op::Mul,
            Op::Sub => Op::Sub,
            Op::Div => Op::Div,
            Op::Transpose { perm } => Op::Transpose { perm: clone_usizes(perm) },
            Op::Reshape { shape } => Op::Reshape { shape: clone_i64s(shape) },
            Op::Permute { dims } => Op::Permute { dims: clone_usizes(dims) },
            Op::Concat { axis } => Op::Concat { axis: *axis },
            Op::Split { axis, sizes } => Op::Split { axis: *axis, sizes: clone_usizes(sizes) },
            Op::Chunk { axis, chunks } => Op::Chunk { axis: *axis, chunks: *chunks },
            Op::Clamp { min, max } => Op::Clamp { min: *min, max: *max },
            Op::NanToNum { nan, posinf, neginf } => Op::NanToNum { nan: *nan, posinf: *posinf, neginf: *neginf },
            Op::Sdpa { num_heads, kv_heads, head_dim, causal } => Op::Sdpa { num_heads: *num_heads, kv_heads: *kv_heads, head_dim: *head_dim, causal: *causal },
            Op::SdpaCross { num_heads, head_dim } => Op::SdpaCross { num_heads: *num_heads, head_dim: *head_dim },
            Op::SdpaWindow { num_heads, head_dim, window_size } => Op::SdpaWindow { num_heads: *num_heads, head_dim: *head_dim, window_size: *window_size },
            Op::KvCache => Op::KvCache,
            Op::KvCompress { head_dim, bits } => Op::KvCompress { head_dim: *head_dim, bits: *bits },
            Op::KvDecompress { head_dim, bits } => Op::KvDecompress { head_dim: *head_dim, bits: *bits },
            Op::Rope { head_dim, base } => Op::Rope { head_dim: *head_dim, base: *base },
            Op::SinusoidalEmbed { dim } => Op::SinusoidalEmbed { dim: *dim },
            Op::RelativePosEmbedding { num_buckets } => Op::RelativePosEmbedding { num_buckets: *num_buckets },
            Op::RmsNorm { eps } => Op::RmsNorm { eps: *eps },
            Op::LayerNorm { eps } => Op::LayerNorm { eps: *eps },
            Op::BatchNorm { eps, momentum } => Op::BatchNorm { eps: *eps, momentum: *momentum },
            Op::GroupNorm { num_groups, eps } => Op::GroupNorm { num_groups: *num_groups, eps: *eps },
            Op::InstanceNorm { eps } => Op::InstanceNorm { eps: *eps },
            Op::AdaLN => Op::AdaLN,
            Op::Silu => Op::Silu,
            Op::Gelu { approximate } => Op::Gelu { approximate: *approximate },
            Op::GeGlu => Op::GeGlu,
            Op::SwiGlu => Op::SwiGlu,
            Op::Glu => Op::Glu,
            Op::Relu => Op::Relu,
            Op::LeakyRelu { slope } => Op::LeakyRelu { slope: *slope },
            Op::PRelu => Op::PRelu,
            Op::Sigmoid => Op::Sigmoid,
            Op::Tanh => Op::Tanh,
            Op::Softmax { dim } => Op::Softmax { dim: *dim },
            Op::Conv1d { kernel, stride, padding, groups } => Op::Conv1d { kernel: *kernel, stride: *stride, padding: *padding, groups: *groups },
            Op::Conv2d { kernel, stride, padding, groups } => Op::Conv2d { kernel: *kernel, stride: *stride, padding: *padding, groups: *groups },
            Op::Conv3d { kernel, stride, padding, groups } => Op::Conv3d { kernel: *kernel, stride: *stride, padding: *padding, groups: *groups },
            Op::ConvTranspose2d { kernel, stride, padding } => Op::ConvTranspose2d { kernel: *kernel, stride: *stride, padding: *padding },
            Op::CausalConv1d { kernel } => Op::CausalConv1d { kernel: *kernel },
            Op::DepthwiseConv { kernel, stride } => Op::DepthwiseConv { kernel: *kernel, stride: *stride },
            Op::Pool { mode, kernel } => Op::Pool { mode: *mode, kernel: *kernel },
            Op::Interpolate { mode, scale } => Op::Interpolate { mode: *mode, scale: *scale },
            Op::PixelShuffle { upscale_factor } => Op::PixelShuffle { upscale_factor: *upscale_factor },
            Op::PixelUnshuffle { downscale_factor } => Op::PixelUnshuffle { downscale_factor: *downscale_factor },
            Op::PatchEmbed { patch_size } => Op::PatchEmbed { patch_size: *patch_size },
            Op::Unpatchify => Op::Unpatchify,
            Op::TokenEmbed => Op::TokenEmbed,
            Op::PosEmbed => Op::PosEmbed,
            Op::NoiseSchedule => Op::NoiseSchedule,
            Op::FlowStep => Op::FlowStep,
            Op::Quantize { dtype } => Op::Quantize { dtype: *dtype },
            Op::Dequantize => Op::Dequantize,
            Op::Sample { method } => Op::Sample { method: *method },
            Op::LoraApply { rank, alpha } => Op::LoraApply { rank: *rank, alpha: *alpha },
            Op::Kron => Op::Kron,
            Op::MatrixInverse => Op::MatrixInverse,
            Op::FusedNormMatmul { eps } => Op::FusedNormMatmul { eps: *eps },
            Op::FusedSkipNorm { eps } => Op::FusedSkipNorm { eps: *eps },
            Op::FusedSwiGlu => Op::FusedSwiGlu,
            Op::FlashAttention { num_heads, kv_heads, head_dim } => Op::FlashAttention { num_heads: *num_heads, kv_heads: *kv_heads, head_dim: *head_dim },
            Op::Argmax => Op::Argmax,
        }
    }
}

impl Op {
    /// Human-readable name of the op's kind.
    pub open spec fn spec_name(self) -> Seq<char> {
        match self {
            Op::Matmul => "Matmul"@,
            Op::Add => "Add"@,
            Op::Mul => "Mul"@,
            Op::Sub => "Sub"@,
            Op::Div => "Div"@,
            Op::Transpose { .. } => "Transpose"@,
            Op::Reshape { .. } => "Reshape"@,
            Op::Permute { .. } => "Permute"@,
            Op::Concat { .. } => "Concat"@,
            Op::Split { .. } => "Split"@,
            Op::Chunk { .. } => "Chunk"@,
            Op::Clamp { .. } => "Clamp"@,
            Op::NanToNum { .. } => "NanToNum"@,
            Op::Sdpa { .. } => "Sdpa"@,
            Op::SdpaCross { .. } => "SdpaCross"@,
            Op::SdpaWindow { .. } => "SdpaWindow"@,
            Op::KvCache => "KvCache"@,
            Op::Rope { .. } => "Rope"@,
            Op::SinusoidalEmbed { .. } => "SinusoidalEmbed"@,
            Op::RelativePosEmbedding { .. } => "RelativePosEmbedding"@,
            Op::RmsNorm { .. } => "RmsNorm"@,
            Op::LayerNorm { .. } => "LayerNorm"@,
            Op::BatchNorm { .. } => "BatchNorm"@,
            Op::GroupNorm { .. } => "GroupNorm"@,
            Op::InstanceNorm { .. } => "InstanceNorm"@,
            Op::AdaLN => "AdaLN"@,
            Op::Silu => "Silu"@,
            Op::Gelu { .. } => "Gelu"@,
            Op::GeGlu => "GeGlu"@,
            Op::SwiGlu => "SwiGlu"@,
            Op::Glu => "Glu"@,
            Op::Relu => "Relu"@,
            Op::LeakyRelu { .. } => "LeakyRelu"@,
            Op::PRelu => "PRelu"@,
            Op::Sigmoid => "Sigmoid"@,
            Op::Tanh => "Tanh"@,
            Op::Softmax { .. } => "Softmax"@,
            Op::Conv1d { .. } => "Conv1d"@,
            Op::Conv2d { .. } => "Conv2d"@,
            Op::Conv3d { .. } => "Conv3d"@,
            Op::ConvTranspose2d { .. } => "ConvTranspose2d"@,
            Op::CausalConv1d { .. } => "CausalConv1d"@,
            Op::DepthwiseConv { .. } => "DepthwiseConv"@,
            Op::Pool { .. } => "Pool"@,
            Op::Interpolate { .. } => "Interpolate"@,
            Op::PixelShuffle { .. } => "PixelShuffle"@,
            Op::PixelUnshuffle { .. } => "PixelUnshuffle"@,
            Op::PatchEmbed { .. } => "PatchEmbed"@,
            Op::Unpatchify => "Unpatchify"@,
            Op::TokenEmbed => "TokenEmbed"@,
            Op::PosEmbed => "PosEmbed"@,
            Op::NoiseSchedule => "NoiseSchedule"@,
            Op::FlowStep => "FlowStep"@,
            Op::Quantize { .. } => "Quantize"@,
            Op::Dequantize => "Dequantize"@,
            Op::Sample { .. } => "Sample"@,
            Op::LoraApply { .. } => "LoraApply"@,
            Op::Kron => "Kron"@,
            Op::MatrixInverse => "MatrixInverse"@,
            Op::FusedNormMatmul { .. } => "FusedNormMatmul"@,
            Op::FusedSkipNorm { .. } => "FusedSkipNorm"@,
            Op::FusedSwiGlu => "FusedSwiGlu"@,
            Op::FlashAttention { .. } => "FlashAttention"@,
            Op::Argmax => "Argmax"@,
            Op::KvCompress { .. } => "KvCompress"@,
            Op::KvDecompress { .. } => "KvDecompress"@,
        }
    }

    pub open spec fn spec_is_stateful(self) -> bool {
        self is KvCache
    }

    pub open spec fn spec_is_layout_only(self) -> bool {
        ||| self is Reshape
        ||| self is Transpose
        ||| self is Permute
        ||| self is Split
        ||| self is Chunk
        ||| self is PixelShuffle
        ||| self is PixelUnshuffle
        ||| self is Unpatchify
    }

    /// Human-readable name for logging.
    pub fn name(&self) -> (r: &'static str)
        ensures
            r@ == self.spec_name(),
    {
        match self {
            Op::Matmul => "Matmul",
            Op::Add => "Add",
            Op::Mul => "Mul",
            Op::Sub => "Sub",
            Op::Div => "Div",
            Op::Transpose { .. } => "Transpose",
            Op::Reshape { .. } => "Reshape",
            Op::Permute { .. } => "Permute",
            Op::Concat { .. } => "Concat",
            Op::Split { .. } => "Split",
            Op::Chunk { .. } => "Chunk",
            Op::Clamp { .. } => "Clamp",
            Op::NanToNum { .. } => "NanToNum",
            Op::Sdpa { .. } => "Sdpa",
            Op::SdpaCross { .. } => "SdpaCross",
            Op::SdpaWindow { .. } => "SdpaWindow",
            Op::KvCache => "KvCache",
            Op::Rope { .. } => "Rope",
            Op::SinusoidalEmbed { .. } => "SinusoidalEmbed",
            Op::RelativePosEmbedding { .. } => "RelativePosEmbedding",
            Op::RmsNorm { .. } => "RmsNorm",
            Op::LayerNorm { .. } => "LayerNorm",
            Op::BatchNorm { .. } => "BatchNorm",
            Op::GroupNorm { .. } => "GroupNorm",
            Op::InstanceNorm { .. } => "InstanceNorm",
            Op::AdaLN => "AdaLN",
            Op::Silu => "Silu",
            Op::Gelu { .. } => "Gelu",
            Op::GeGlu => "GeGlu",
            Op::SwiGlu => "SwiGlu",
            Op::Glu => "Glu",
            Op::Relu => "Relu",
            Op::LeakyRelu { .. } => "LeakyRelu",
            Op::PRelu => "PRelu",
            Op::Sigmoid => "Sigmoid",
            Op::Tanh => "Tanh",
            Op::Softmax { .. } => "Softmax",
            Op::Conv1d { .. } => "Conv1d",
            Op::Conv2d { .. } => "Conv2d",
            Op::Conv3d { .. } => "Conv3d",
            Op::ConvTranspose2d { .. } => "ConvTranspose2d",
            Op::CausalConv1d { .. } => "CausalConv1d",
            Op::DepthwiseConv { .. } => "DepthwiseConv",
            Op::Pool { .. } => "Pool",
            Op::Interpolate { .. } => "Interpolate",
            Op::PixelShuffle { .. } => "PixelShuffle",
            Op::PixelUnshuffle { .. } => "PixelUnshuffle",
            Op::PatchEmbed { .. } => "PatchEmbed",
            Op::Unpatchify => "Unpatchify",
            Op::TokenEmbed => "TokenEmbed",
            Op::PosEmbed => "PosEmbed",
            Op::NoiseSchedule => "NoiseSchedule",
            Op::FlowStep => "FlowStep",
            Op::Quantize { .. } => "Quantize",
            Op::Dequantize => "Dequantize",
            Op::Sample { .. } => "Sample",
            Op::LoraApply { .. } => "LoraApply",
            Op::Kron => "Kron",
            Op::MatrixInverse => "MatrixInverse",
            Op::FusedNormMatmul { .. } => "FusedNormMatmul",
            Op::FusedSkipNorm { .. } => "FusedSkipNorm",
            Op::FusedSwiGlu => "FusedSwiGlu",
            Op::FlashAttention { .. } => "FlashAttention",
            Op::Argmax => "Argmax",
            Op::KvCompress { .. } => "KvCompress",
            Op::KvDecompress { .. } => "KvDecompress",
        }
    }

    /// Whether this op carries state between inference calls.
    pub fn is_stateful(&self) -> (r: bool)
        ensures
            r == self.spec_is_stateful(),
    {
        matches!(self, Op::KvCache)
    }

    /// Whether this op is a pure memory layout change (zero compute).
    pub fn is_layout_only(&self) -> (r: bool)
        ensures
            r == self.spec_is_layout_only(),
    {
        matches!(
            self,
            Op::Reshape { .. } | Op::Transpose { .. } | Op::Permute { .. } | Op::Split { .. }
                | Op::Chunk { .. } | Op::PixelShuffle { .. } | Op::PixelUnshuffle { .. }
                | Op::Unpatchify
        )
    }
}

} // verus!
