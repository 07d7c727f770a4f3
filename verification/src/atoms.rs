//! The eight computational atoms that every op decomposes into.

use vstd::prelude::*;
use crate::ops::Op;

verus! {

/// Comparison operations for the Cmp atom.
#[derive(Clone, Copy, Debug, Hash, PartialEq, Eq, Structural)]
pub enum CmpOp {
    Max,
    Min,
    LessThan,
    GreaterThan,
}

/// Reduction operations for the Reduce atom.
#[derive(Clone, Copy, Debug, Hash, PartialEq, Eq, Structural)]
pub enum ReduceOp {
    Sum,
    Max,
    Mean,
}

/// Sliding window patterns for convolution-like access.
#[derive(Clone, Copy, Debug, Hash, PartialEq, Eq)]
pub enum SlidePattern {
    Window1D { kernel: usize, stride: usize },
    Window2D { kernel: (usize, usize), stride: (usize, usize) },
    Window3D { kernel: (usize, usize, usize), stride: (usize, usize, usize) },
}

/// The computational atoms.
#[derive(Clone, Copy, Debug, Hash, PartialEq, Eq)]
pub enum Atom {
    /// Multiply two values.
    Mul,
    /// Add two values.
    Add,
    /// Compare (max, min, less-than, greater-than).
    Cmp(CmpOp),
    /// Exponential function.
    Exp,
    /// Indexed memory lookup.
    Read,
    /// Indexed memory store.
    Write,
    /// Collapse a dimension.
    Reduce(ReduceOp),
    /// Windowed memory access pattern.
    Slide(SlidePattern),
}

/// Reference interpreter over atoms; its numeric execution runs outside
/// the verified library.
pub struct AtomInterpreter;

pub open spec fn w1(kernel: usize, stride: usize) -> Atom {
    Atom::Slide(SlidePattern::Window1D { kernel, stride })
}

pub open spec fn w2(k: (usize, usize), s: (usize, usize)) -> Atom {
    Atom::Slide(SlidePattern::Window2D { kernel: k, stride: s })
}

/// matmul-style pattern: window, multiply, sum.
pub open spec fn conv_atoms(window: Atom) -> Seq<Atom> {
    seq![window, Atom::Mul, Atom::Reduce(ReduceOp::Sum)]
}

/// Attention pattern: QK^T, softmax, scale, times V.
pub open spec fn attention_atoms() -> Seq<Atom> {
    seq![
        Atom::Mul, Atom::Reduce(ReduceOp::Sum),
        Atom::Exp, Atom::Reduce(ReduceOp::Sum),
        Atom::Mul,
        Atom::Mul, Atom::Reduce(ReduceOp::Sum),
    ]
}

pub open spec fn rmsnorm_atoms() -> Seq<Atom> {
    seq![Atom::Mul, Atom::Reduce(ReduceOp::Sum), Atom::Exp, Atom::Mul]
}

pub open spec fn meannorm_atoms() -> Seq<Atom> {
    seq![
        Atom::Reduce(ReduceOp::Mean), Atom::Add, Atom::Mul,
        Atom::Reduce(ReduceOp::Mean), Atom::Mul, Atom::Add,
    ]
}

pub open spec fn gated_atoms() -> Seq<Atom> {
    seq![Atom::Mul, Atom::Exp, Atom::Add, Atom::Mul, Atom::Mul]
}

/// The canonical decomposition of each op into atoms.
pub open spec fn spec_decompose(op: Op) -> Seq<Atom> {
    match op {
        Op::Matmul => conv_atoms(w1(1, 1)),
        Op::Add => seq![Atom::Add],
        Op::Mul => seq![Atom::Mul],
        Op::Sub => seq![Atom::Add, Atom::Mul],
        Op::Div => seq![Atom::Mul, Atom::Exp],
        Op::Transpose { .. } => seq![Atom::Read],
        Op::Reshape { .. } => seq![],
        Op::Permute { .. } => seq![Atom::Read],
        Op::Concat { .. } => seq![Atom::Write],
        Op::Split { .. } => seq![Atom::Read],
        Op::Chunk { .. } => seq![Atom::Read],
        Op::Clamp { .. } => seq![Atom::Cmp(CmpOp::Max), Atom::Cmp(CmpOp::Min)],
        Op::NanToNum { .. } => seq![Atom::Cmp(CmpOp::LessThan), Atom::Mul, Atom::Add],
        Op::Sdpa { .. } => attention_atoms(),
        Op::SdpaCross { .. } => attention_atoms(),
        Op::SdpaWindow { .. } => seq![w1(1, 1)] + attention_atoms(),
        Op::KvCache => seq![Atom::Write, Atom::Read],
        Op::KvCompress { .. } => seq![],
        Op::KvDecompress { .. } => seq![],
        Op::Rope { .. } => seq![Atom::Mul, Atom::Add],
        Op::SinusoidalEmbed { .. } => seq![Atom::Mul, Atom::Exp],
        Op::RelativePosEmbedding { .. } => seq![Atom::Read],
        Op::RmsNorm { .. } => rmsnorm_atoms(),
        Op::LayerNorm { .. } => meannorm_atoms(),
        Op::BatchNorm { .. } => seq![Atom::Add, Atom::Mul, Atom::Mul, Atom::Add],
        Op::GroupNorm { .. } => meannorm_atoms(),
        Op::InstanceNorm { .. } => meannorm_atoms().drop_last(),
        Op::AdaLN => seq![Atom::Mul, Atom::Add],
        Op::Silu => seq![Atom::Mul, Atom::Exp, Atom::Add, Atom::Mul],
        Op::Gelu { .. } => seq![Atom::Mul, Atom::Exp, Atom::Add, Atom::Mul],
        Op::GeGlu => gated_atoms(),
        Op::SwiGlu => gated_atoms(),
        Op::Glu => seq![Atom::Exp, Atom::Add, Atom::Mul],
        Op::Relu => seq![Atom::Cmp(CmpOp::Max)],
        Op::LeakyRelu { .. } => seq![Atom::Cmp(CmpOp::Max), Atom::Mul, Atom::Add],
        Op::PRelu => seq![Atom::Cmp(CmpOp::Max), Atom::Mul, Atom::Add],
        Op::Sigmoid => seq![Atom::Exp, Atom::Add, Atom::Mul],
        Op::Tanh => seq![Atom::Exp, Atom::Add, Atom::Mul],
        Op::Softmax { .. } => seq![Atom::Exp, Atom::Reduce(ReduceOp::Sum), Atom::Mul],
        Op::Conv1d { kernel, stride, .. } => conv_atoms(w1(kernel as usize, stride as usize)),
        Op::Conv2d { kernel, stride, .. } => conv_atoms(
            w2((kernel.0 as usize, kernel.1 as usize), (stride.0 as usize, stride.1 as usize)),
        ),
        Op::Conv3d { kernel, stride, .. } => conv_atoms(
            Atom::Slide(
                SlidePattern::Window3D {
                    kernel: (kernel.0 as usize, kernel.1 as usize, kernel.2 as usize),
                    stride: (stride.0 as usize, stride.1 as usize, stride.2 as usize),
                },
            ),
        ),
        Op::ConvTranspose2d { kernel, stride, .. } => conv_atoms(
            w2((kernel.0 as usize, kernel.1 as usize), (stride.0 as usize, stride.1 as usize)),
        ),
        Op::CausalConv1d { kernel } => conv_atoms(w1(kernel as usize, 1)),
        Op::DepthwiseConv { kernel, stride } => conv_atoms(w1(kernel as usize, stride as usize)),
        Op::Pool { .. } => seq![w2((2, 2), (2, 2)), Atom::Reduce(ReduceOp::Max)],
        Op::Interpolate { .. } => seq![Atom::Read, Atom::Mul, Atom::Add],
        Op::PixelShuffle { .. } => seq![],
        Op::PixelUnshuffle { .. } => seq![],
        Op::PatchEmbed { .. } => conv_atoms(w2((16, 16), (16, 16))),
        Op::Unpatchify => seq![Atom::Write],
        Op::TokenEmbed => seq![Atom::Read],
        Op::PosEmbed => seq![Atom::Read],
        Op::NoiseSchedule => seq![Atom::Mul, Atom::Exp],
        Op::FlowStep => seq![Atom::Mul, Atom::Add, Atom::Exp],
        Op::Quantize { .. } => seq![Atom::Mul, Atom::Cmp(CmpOp::Max), Atom::Cmp(CmpOp::Min)],
        Op::Dequantize => seq![Atom::Mul, Atom::Add],
        Op::Sample { .. } => seq![
            Atom::Exp,
            Atom::Reduce(ReduceOp::Sum),
            Atom::Mul,
            Atom::Cmp(CmpOp::Max),
        ],
        Op::LoraApply { .. } => seq![
            w1(1, 1),
            Atom::Mul, Atom::Reduce(ReduceOp::Sum),
            Atom::Mul, Atom::Reduce(ReduceOp::Sum),
            Atom::Mul,
            Atom::Add,
        ],
        Op::Kron => seq![Atom::Mul],
        Op::MatrixInverse => seq![Atom::Mul, Atom::Add, Atom::Reduce(ReduceOp::Sum)],
        Op::FusedNormMatmul { .. } => rmsnorm_atoms() + seq![
            w1(1, 1),
            Atom::Mul,
            Atom::Reduce(ReduceOp::Sum),
        ],
        Op::FusedSkipNorm { .. } => seq![Atom::Add] + rmsnorm_atoms(),
        Op::FusedSwiGlu => gated_atoms(),
        Op::FlashAttention { .. } => attention_atoms(),
        Op::Argmax => seq![Atom::Cmp(CmpOp::GreaterThan), Atom::Reduce(ReduceOp::Max)],
    }
}


fn x_w1(kernel: usize, stride: usize) -> (a: Atom)
    ensures
        a == w1(kernel, stride),
{
    Atom::Slide(SlidePattern::Window1D { kernel, stride })
}

fn x_w2(k: (usize, usize), s: (usize, usize)) -> (a: Atom)
    ensures
        a == w2(k, s),
{
    Atom::Slide(SlidePattern::Window2D { kernel: k, stride: s })
}

fn conv_vec(window: Atom) -> (v: Vec<Atom>)
    ensures
        v@ == conv_atoms(window),
{
    let v = vec![window, Atom::Mul, Atom::Reduce(ReduceOp::Sum)];
    assert(v@ =~= conv_atoms(window));
    v
}

fn attention_vec() -> (v: Vec<Atom>)
    ensures
        v@ == attention_atoms(),
{
    let v = vec![
        Atom::Mul, Atom::Reduce(ReduceOp::Sum),
        Atom::Exp, Atom::Reduce(ReduceOp::Sum),
        Atom::Mul,
        Atom::Mul, Atom::Reduce(ReduceOp::Sum),
    ];
    assert(v@ =~= attention_atoms());
    v
}

fn rmsnorm_vec() -> (v: Vec<Atom>)
    ensures
        v@ == rmsnorm_atoms(),
{
    let v = vec![Atom::Mul, Atom::Reduce(ReduceOp::Sum), Atom::Exp, Atom::Mul];
    assert(v@ =~= rmsnorm_atoms());
    v
}

fn meannorm_vec() -> (v: Vec<Atom>)
    ensures
        v@ == meannorm_atoms(),
{
    let v = vec![
        Atom::Reduce(ReduceOp::Mean), Atom::Add, Atom::Mul,
        Atom::Reduce(ReduceOp::Mean), Atom::Mul, Atom::Add,
    ];
    assert(v@ =~= meannorm_atoms());
    v
}

fn instancenorm_vec() -> (v: Vec<Atom>)
    ensures
        v@ == meannorm_atoms().drop_last(),
{
    let v = vec![
        Atom::Reduce(ReduceOp::Mean), Atom::Add, Atom::Mul,
        Atom::Reduce(ReduceOp::Mean), Atom::Mul,
    ];
    assert(v@ =~= meannorm_atoms().drop_last());
    v
}

fn gated_vec() -> (v: Vec<Atom>)
    ensures
        v@ == gated_atoms(),
{
    let v = vec![Atom::Mul, Atom::Exp, Atom::Add, Atom::Mul, Atom::Mul];
    assert(v@ =~= gated_atoms());
    v
}

fn concat_atoms(a: Vec<Atom>, b: Vec<Atom>) -> (v: Vec<Atom>)
    ensures
        v@ == a@ + b@,
{
    let mut v = a;
    let mut b = b;
    v.append(&mut b);
    v
}

/// Decompose any op into its canonical sequence of atoms. Reshape, the
/// pixel shuffles and the KV compression ops decompose to the empty
/// sequence; the layout ops that move data (transpose, permute, split,
/// chunk) to a single `Read`.
pub fn decompose(op: &Op) -> (v: Vec<Atom>)
    ensures
        v@ == spec_decompose(*op),
{
    let v = match op {
        Op::Matmul => conv_vec(x_w1(1, 1)),
        Op::Add => vec![Atom::Add],
        Op::Mul => vec![Atom::Mul],
        Op::Sub => vec![Atom::Add, Atom::Mul],
        Op::Div => vec![Atom::Mul, Atom::Exp],
        Op::Transpose { .. } => vec![Atom::Read],
        Op::Reshape { .. } => vec![],
        Op::Permute { .. } => vec![Atom::Read],
        Op::Concat { .. } => vec![Atom::Write],
        Op::Split { .. } => vec![Atom::Read],
        Op::Chunk { .. } => vec![Atom::Read],
        Op::Clamp { .. } => vec![Atom::Cmp(CmpOp::Max), Atom::Cmp(CmpOp::Min)],
        Op::NanToNum { .. } => vec![Atom::Cmp(CmpOp::LessThan), Atom::Mul, Atom::Add],
        Op::Sdpa { .. } => attention_vec(),
        Op::SdpaCross { .. } => attention_vec(),
        Op::SdpaWindow { .. } => concat_atoms(vec![x_w1(1, 1)], attention_vec()),
        Op::KvCache => vec![Atom::Write, Atom::Read],
        Op::KvCompress { .. } => vec![],
        Op::KvDecompress { .. } => vec![],
        Op::Rope { .. } => vec![Atom::Mul, Atom::Add],
        Op::SinusoidalEmbed { .. } => vec![Atom::Mul, Atom::Exp],
        Op::RelativePosEmbedding { .. } => vec![Atom::Read],
        Op::RmsNorm { .. } => rmsnorm_vec(),
        Op::LayerNorm { .. } => meannorm_vec(),
        Op::BatchNorm { .. } => vec![Atom::Add, Atom::Mul, Atom::Mul, Atom::Add],
        Op::GroupNorm { .. } => meannorm_vec(),
        Op::InstanceNorm { .. } => instancenorm_vec(),
        Op::AdaLN => vec![Atom::Mul, Atom::Add],
        Op::Silu => vec![Atom::Mul, Atom::Exp, Atom::Add, Atom::Mul],
        Op::Gelu { .. } => vec![Atom::Mul, Atom::Exp, Atom::Add, Atom::Mul],
        Op::GeGlu => gated_vec(),
        Op::SwiGlu => gated_vec(),
        Op::Glu => vec![Atom::Exp, Atom::Add, Atom::Mul],
        Op::Relu => vec![Atom::Cmp(CmpOp::Max)],
        Op::LeakyRelu { .. } => vec![Atom::Cmp(CmpOp::Max), Atom::Mul, Atom::Add],
        Op::PRelu => vec![Atom::Cmp(CmpOp::Max), Atom::Mul, Atom::Add],
        Op::Sigmoid => vec![Atom::Exp, Atom::Add, Atom::Mul],
        Op::Tanh => vec![Atom::Exp, Atom::Add, Atom::Mul],
        Op::Softmax { .. } => vec![Atom::Exp, Atom::Reduce(ReduceOp::Sum), Atom::Mul],
        Op::Conv1d { kernel, stride, .. } => conv_vec(x_w1(*kernel as usize, *stride as usize)),
        Op::Conv2d { kernel, stride, .. } => conv_vec(
            x_w2((kernel.0 as usize, kernel.1 as usize), (stride.0 as usize, stride.1 as usize)),
        ),
        Op::Conv3d { kernel, stride, .. } => conv_vec(
            Atom::Slide(
                SlidePattern::Window3D {
                    kernel: (kernel.0 as usize, kernel.1 as usize, kernel.2 as usize),
                    stride: (stride.0 as usize, stride.1 as usize, stride.2 as usize),
                },
            ),
        ),
        Op::ConvTranspose2d { kernel, stride, .. } => conv_vec(
            x_w2((kernel.0 as usize, kernel.1 as usize), (stride.0 as usize, stride.1 as usize)),
        ),
        Op::CausalConv1d { kernel } => conv_vec(x_w1(*kernel as usize, 1)),
        Op::DepthwiseConv { kernel, stride } => conv_vec(x_w1(*kernel as usize, *stride as usize)),
        Op::Pool { .. } => vec![x_w2((2, 2), (2, 2)), Atom::Reduce(ReduceOp::Max)],
        Op::Interpolate { .. } => vec![Atom::Read, Atom::Mul, Atom::Add],
        Op::PixelShuffle { .. } => vec![],
        Op::PixelUnshuffle { .. } => vec![],
        Op::PatchEmbed { .. } => conv_vec(x_w2((16, 16), (16, 16))),
        Op::Unpatchify => vec![Atom::Write],
        Op::TokenEmbed => vec![Atom::Read],
        Op::PosEmbed => vec![Atom::Read],
        Op::NoiseSchedule => vec![Atom::Mul, Atom::Exp],
        Op::FlowStep => vec![Atom::Mul, Atom::Add, Atom::Exp],
        Op::Quantize { .. } => vec![Atom::Mul, Atom::Cmp(CmpOp::Max), Atom::Cmp(CmpOp::Min)],
        Op::Dequantize => vec![Atom::Mul, Atom::Add],
        Op::Sample { .. } => vec![
            Atom::Exp,
            Atom::Reduce(ReduceOp::Sum),
            Atom::Mul,
            Atom::Cmp(CmpOp::Max),
        ],
        Op::LoraApply { .. } => vec![
            x_w1(1, 1),
            Atom::Mul, Atom::Reduce(ReduceOp::Sum),
            Atom::Mul, Atom::Reduce(ReduceOp::Sum),
            Atom::Mul,
            Atom::Add,
        ],
        Op::Kron => vec![Atom::Mul],
        Op::MatrixInverse => vec![Atom::Mul, Atom::Add, Atom::Reduce(ReduceOp::Sum)],
        Op::FusedNormMatmul { .. } => concat_atoms(rmsnorm_vec(), vec![x_w1(1, 1), Atom::Mul, Atom::Reduce(ReduceOp::Sum)]),
        Op::FusedSkipNorm { .. } => concat_atoms(vec![Atom::Add], rmsnorm_vec()),
        Op::FusedSwiGlu => gated_vec(),
        Op::FlashAttention { .. } => attention_vec(),
        Op::Argmax => vec![Atom::Cmp(CmpOp::GreaterThan), Atom::Reduce(ReduceOp::Max)],
    };
    proof {
        assert(v@ =~= spec_decompose(*op));
    }
    v
}

} // verus!
