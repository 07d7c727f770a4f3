use cyb_model::atoms::{decompose, Atom, CmpOp, ReduceOp};
use cyb_model::dtype::DType;
use cyb_model::ops::{F32Bits, InterpolateMode, Op, PoolMode, SampleMethod};

fn bits(x: f32) -> F32Bits {
    F32Bits(x.to_bits())
}

#[test]
fn test_decompose_matmul() {
    let atoms = decompose(&Op::Matmul);
    assert_eq!(atoms.len(), 3);
    assert!(matches!(atoms[0], Atom::Slide(_)));
    assert_eq!(atoms[1], Atom::Mul);
    assert!(matches!(atoms[2], Atom::Reduce(ReduceOp::Sum)));
}

#[test]
fn test_decompose_relu() {
    let atoms = decompose(&Op::Relu);
    assert_eq!(atoms.len(), 1);
    assert!(matches!(atoms[0], Atom::Cmp(CmpOp::Max)));
}

#[test]
fn test_decompose_layout_ops_are_empty() {
    let atoms = decompose(&Op::Reshape { shape: vec![1, -1] });
    assert!(atoms.is_empty());
    let atoms = decompose(&Op::PixelShuffle { upscale_factor: 2 });
    assert!(atoms.is_empty());
}

#[test]
fn test_all_ops_decompose() {
    let ops = vec![
        Op::Matmul, Op::Add, Op::Mul, Op::Sub, Op::Div,
        Op::Transpose { perm: vec![0, 1] },
        Op::Reshape { shape: vec![1, -1] },
        Op::Permute { dims: vec![0, 1] },
        Op::Concat { axis: 0 },
        Op::Split { axis: 0, sizes: vec![1] },
        Op::Chunk { axis: 0, chunks: 2 },
        Op::Clamp { min: Some(bits(-1.0)), max: Some(bits(1.0)) },
        Op::NanToNum { nan: bits(0.0), posinf: bits(1e6), neginf: bits(-1e6) },
        Op::Sdpa { num_heads: 8, kv_heads: 8, head_dim: 64, causal: true },
        Op::SdpaCross { num_heads: 8, head_dim: 64 },
        Op::SdpaWindow { num_heads: 8, head_dim: 64, window_size: 7 },
        Op::KvCache,
        Op::Rope { head_dim: 64, base: bits(10000.0) },
        Op::SinusoidalEmbed { dim: 256 },
        Op::RelativePosEmbedding { num_buckets: 32 },
        Op::RmsNorm { eps: bits(1e-5) },
        Op::LayerNorm { eps: bits(1e-5) },
        Op::BatchNorm { eps: bits(1e-5), momentum: bits(0.1) },
        Op::GroupNorm { num_groups: 32, eps: bits(1e-5) },
        Op::InstanceNorm { eps: bits(1e-5) },
        Op::AdaLN,
        Op::Silu, Op::Gelu { approximate: true },
        Op::GeGlu, Op::SwiGlu, Op::Glu,
        Op::Relu, Op::LeakyRelu { slope: bits(0.2) }, Op::PRelu,
        Op::Sigmoid, Op::Tanh,
        Op::Softmax { dim: -1 },
        Op::Conv1d { kernel: 3, stride: 1, padding: 1, groups: 1 },
        Op::Conv2d { kernel: (3, 3), stride: (1, 1), padding: (1, 1), groups: 1 },
        Op::Conv3d { kernel: (3, 3, 3), stride: (1, 1, 1), padding: (1, 1, 1), groups: 1 },
        Op::ConvTranspose2d { kernel: (3, 3), stride: (2, 2), padding: (1, 1) },
        Op::CausalConv1d { kernel: 3 },
        Op::DepthwiseConv { kernel: 3, stride: 1 },
        Op::Pool { mode: PoolMode::Max, kernel: (2, 2) },
        Op::Interpolate { mode: InterpolateMode::Nearest, scale: bits(2.0) },
        Op::PixelShuffle { upscale_factor: 2 },
        Op::PixelUnshuffle { downscale_factor: 2 },
        Op::PatchEmbed { patch_size: 16 },
        Op::Unpatchify,
        Op::TokenEmbed, Op::PosEmbed,
        Op::NoiseSchedule, Op::FlowStep,
        Op::Quantize { dtype: DType::Q4 },
        Op::Dequantize,
        Op::Sample { method: SampleMethod::Greedy },
        Op::LoraApply { rank: 16, alpha: bits(1.0) },
        Op::Kron, Op::MatrixInverse,
        Op::FusedNormMatmul { eps: bits(1e-5) },
        Op::FusedSkipNorm { eps: bits(1e-5) },
        Op::FusedSwiGlu,
        Op::FlashAttention { num_heads: 8, kv_heads: 8, head_dim: 64 },
        Op::Argmax,
    ];
    for op in &ops {
        let atoms = decompose(op);
        let _ = atoms.len();
    }
}

#[test]
fn decompose_is_empty_exactly_for_layout_ops() {
    let ops = vec![Op::Matmul, Op::Reshape { shape: vec![2] }, Op::Relu, Op::PixelShuffle { upscale_factor: 2 }];
    for op in &ops {
        assert_eq!(decompose(op).is_empty(), op.is_layout_only());
    }
}
