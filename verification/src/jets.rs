//! Jet registry: maps formula hashes of atom compositions to fused kernels.
//!
//! The formula hash of an atom sequence is the `DefaultHasher` digest of
//! the byte stream that hashing each atom writes: the atom's discriminant,
//! then its payload (nested discriminants and `usize` fields), each as an
//! 8-byte little-endian word.

use vstd::prelude::*;
use std::collections::HashMap;
use std::collections::hash_map::DefaultHasher;
use std::hash::Hasher;
use vstd::std_specs::hash::{DefaultHasherAdditionalSpecFns, spec_values_iter};
use crate::atoms::{Atom, CmpOp, ReduceOp, SlidePattern, spec_decompose, decompose};
use crate::ops::Op;
use crate::text::{bytes_le, str_le, lemma_bytes_le_total, lemma_bytes_le_trans};
use vstd::string::StringSliceAdditionalSpecFns;
use vstd::std_specs::iter::IteratorSpec;

verus! {

broadcast use vstd::std_specs::hash::group_hash_axioms;

/// Formula hash: deterministic hash of an atom composition.
pub type FormulaHash = u64;

/// Little-endian bytes of a 64-bit word.
pub open spec fn le_bytes(w: u64) -> Seq<u8> {
    Seq::new(8, |i: int| ((w >> (8 * i) as u64) & 0xff) as u8)
}

pub open spec fn cmp_word(c: CmpOp) -> u64 {
    match c {
        CmpOp::Max => 0,
        CmpOp::Min => 1,
        CmpOp::LessThan => 2,
        CmpOp::GreaterThan => 3,
    }
}

pub open spec fn reduce_word(r: ReduceOp) -> u64 {
    match r {
        ReduceOp::Sum => 0,
        ReduceOp::Max => 1,
        ReduceOp::Mean => 2,
    }
}

pub open spec fn slide_words(p: SlidePattern) -> Seq<u64> {
    match p {
        SlidePattern::Window1D { kernel, stride } => seq![0u64, kernel as u64, stride as u64],
        SlidePattern::Window2D { kernel, stride } => seq![
            1u64,
            kernel.0 as u64,
            kernel.1 as u64,
            stride.0 as u64,
            stride.1 as u64,
        ],
        SlidePattern::Window3D { kernel, stride } => seq![
            2u64,
            kernel.0 as u64,
            kernel.1 as u64,
            kernel.2 as u64,
            stride.0 as u64,
            stride.1 as u64,
            stride.2 as u64,
        ],
    }
}

/// The words that hashing one atom writes.
pub open spec fn atom_words(a: Atom) -> Seq<u64> {
    match a {
        Atom::Mul => seq![0u64],
        Atom::Add => seq![1u64],
        Atom::Cmp(c) => seq![2u64, cmp_word(c)],
        Atom::Exp => seq![3u64],
        Atom::Read => seq![4u64],
        Atom::Write => seq![5u64],
        Atom::Reduce(r) => seq![6u64, reduce_word(r)],
        Atom::Slide(p) => seq![7u64] + slide_words(p),
    }
}

/// The words that hashing a sequence of atoms writes, in order.
pub open spec fn atoms_words(s: Seq<Atom>) -> Seq<u64>
    decreases s.len(),
{
    if s.len() == 0 {
        seq![]
    } else {
        atoms_words(s.drop_last()) + atom_words(s.last())
    }
}

/// The chunks written into the hasher for a sequence of atoms.
pub open spec fn hash_chunks(s: Seq<Atom>) -> Seq<Seq<u8>> {
    atoms_words(s).map_values(|w: u64| le_bytes(w))
}

/// The formula hash of an atom sequence.
pub open spec fn spec_formula_hash(s: Seq<Atom>) -> u64 {
    DefaultHasher::spec_finish(hash_chunks(s))
}

fn word_bytes(w: u64) -> (v: Vec<u8>)
    ensures
        v@ == le_bytes(w),
{
    let mut v: Vec<u8> = Vec::new();
    let mut i: u64 = 0;
    while i < 8
        invariant
            i <= 8,
            v@ == le_bytes(w).take(i as int),
        decreases 8 - i,
    {
        v.push(((w >> (8 * i)) & 0xff) as u8);
        i = i + 1;
        proof {
            assert(v@ =~= le_bytes(w).take(i as int));
        }
    }
    assert(v@ =~= le_bytes(w));
    v
}

fn cmp_word_exec(c: CmpOp) -> (w: u64)
    ensures
        w == cmp_word(c),
{
    match c {
        CmpOp::Max => 0,
        CmpOp::Min => 1,
        CmpOp::LessThan => 2,
        CmpOp::GreaterThan => 3,
    }
}

fn reduce_word_exec(r: ReduceOp) -> (w: u64)
    ensures
        w == reduce_word(r),
{
    match r {
        ReduceOp::Sum => 0,
        ReduceOp::Max => 1,
        ReduceOp::Mean => 2,
    }
}

fn slide_words_exec(p: SlidePattern) -> (v: Vec<u64>)
    ensures
        v@ == seq![7u64] + slide_words(p),
{
    let v = match p {
        SlidePattern::Window1D { kernel, stride } => vec![7u64, 0u64, kernel as u64, stride as u64],
        SlidePattern::Window2D { kernel, stride } => vec![
            7u64,
            1u64,
            kernel.0 as u64,
            kernel.1 as u64,
            stride.0 as u64,
            stride.1 as u64,
        ],
        SlidePattern::Window3D { kernel, stride } => vec![
            7u64,
            2u64,
            kernel.0 as u64,
            kernel.1 as u64,
            kernel.2 as u64,
            stride.0 as u64,
            stride.1 as u64,
            stride.2 as u64,
        ],
    };
    assert(v@ =~= seq![7u64] + slide_words(p));
    v
}

fn atom_words_exec(a: Atom) -> (v: Vec<u64>)
    ensures
        v@ == atom_words(a),
{
    let v = match a {
        Atom::Mul => vec![0u64],
        Atom::Add => vec![1u64],
        Atom::Cmp(c) => vec![2u64, cmp_word_exec(c)],
        Atom::Exp => vec![3u64],
        Atom::Read => vec![4u64],
        Atom::Write => vec![5u64],
        Atom::Reduce(r) => vec![6u64, reduce_word_exec(r)],
        Atom::Slide(p) => slide_words_exec(p),
    };
    assert(v@ =~= atom_words(a));
    v
}

/// Compute the formula hash of an atom sequence. Identical sequences always
/// give the same hash.
pub fn formula_hash(atoms: &[Atom]) -> (h: FormulaHash)
    ensures
        h == spec_formula_hash(atoms@),
{
    let mut hasher = DefaultHasher::new();
    let mut i: usize = 0;
    while i < atoms.len()
        invariant
            i <= atoms@.len(),
            hasher@ == hash_chunks(atoms@.take(i as int)),
        decreases atoms@.len() - i,
    {
        let ghost before = hasher@;
        let words = atom_words_exec(atoms[i]);
        let mut j: usize = 0;
        while j < words.len()
            invariant
                j <= words@.len(),
                words@ == atom_words(atoms@[i as int]),
                i < atoms@.len(),
                hasher@ == before + words@.take(j as int).map_values(|w: u64| le_bytes(w)),
            decreases words@.len() - j,
        {
            let bytes = word_bytes(words[j]);
            hasher.write(bytes.as_slice());
            j = j + 1;
            proof {
                assert(hasher@ =~= before + words@.take(j as int).map_values(|w: u64| le_bytes(w)));
            }
        }
        i = i + 1;
        proof {
            let s = atoms@.take(i as int);
            assert(s.drop_last() =~= atoms@.take(i - 1));
            assert(words@.take(j as int) =~= words@);
            assert(atoms_words(s) == atoms_words(s.drop_last()) + atom_words(s.last()));
            assert(hash_chunks(s) =~= hash_chunks(s.drop_last()) + words@.map_values(|w: u64| le_bytes(w)));
        }
    }
    assert(atoms@.take(atoms@.len() as int) =~= atoms@);
    hasher.finish()
}

/// Identical atom sequences have identical formula hashes.
pub proof fn lemma_formula_hash_deterministic(a: Seq<Atom>, b: Seq<Atom>)
    requires
        a == b,
    ensures
        spec_formula_hash(a) == spec_formula_hash(b),
{
}

/// A registered jet: a fused kernel replacing a recognised atom composition.
pub struct Jet {
    /// Human-readable jet name.
    pub name: &'static str,
    /// Formula hash of the atom composition.
    pub hash: FormulaHash,
    /// The canonical atom decomposition this jet accelerates.
    pub atoms: Vec<Atom>,
}

/// The registration table, in registration order: (name, atoms).
pub open spec fn jet_table() -> Seq<(Seq<char>, Seq<Atom>)> {
    seq![
        ("matmul"@, seq![Atom::Slide(SlidePattern::Window1D { kernel: 1, stride: 1 }), Atom::Mul, Atom::Reduce(ReduceOp::Sum)]),
        ("add"@, seq![Atom::Add]),
        ("mul"@, seq![Atom::Mul]),
        ("sub"@, seq![Atom::Add, Atom::Mul]),
        ("div"@, seq![Atom::Mul, Atom::Exp]),
        ("transpose"@, seq![Atom::Read]),
        ("concat"@, seq![Atom::Write]),
        ("clamp"@, seq![Atom::Cmp(CmpOp::Max), Atom::Cmp(CmpOp::Min)]),
        ("nan_to_num"@, seq![Atom::Cmp(CmpOp::LessThan), Atom::Mul, Atom::Add]),
        ("sdpa"@, seq![Atom::Mul, Atom::Reduce(ReduceOp::Sum), Atom::Exp, Atom::Reduce(ReduceOp::Sum), Atom::Mul, Atom::Mul, Atom::Reduce(ReduceOp::Sum)]),
        ("kv_cache"@, seq![Atom::Write, Atom::Read]),
        ("rope"@, seq![Atom::Mul, Atom::Add]),
        ("sinusoidal_embed"@, seq![Atom::Mul, Atom::Exp]),
        ("relative_pos_embedding"@, seq![Atom::Read]),
        ("rmsnorm"@, seq![Atom::Mul, Atom::Reduce(ReduceOp::Sum), Atom::Exp, Atom::Mul]),
        ("layernorm"@, seq![Atom::Reduce(ReduceOp::Mean), Atom::Add, Atom::Mul, Atom::Reduce(ReduceOp::Mean), Atom::Mul, Atom::Add]),
        ("batchnorm"@, seq![Atom::Add, Atom::Mul, Atom::Mul, Atom::Add]),
        ("groupnorm"@, seq![Atom::Reduce(ReduceOp::Mean), Atom::Add, Atom::Mul, Atom::Reduce(ReduceOp::Mean), Atom::Mul, Atom::Add]),
        ("instancenorm"@, seq![Atom::Reduce(ReduceOp::Mean), Atom::Add, Atom::Mul, Atom::Reduce(ReduceOp::Mean), Atom::Mul]),
        ("adaln"@, seq![Atom::Mul, Atom::Add]),
        ("silu"@, seq![Atom::Mul, Atom::Exp, Atom::Add, Atom::Mul]),
        ("gelu"@, seq![Atom::Mul, Atom::Exp, Atom::Add, Atom::Mul]),
        ("geglu"@, seq![Atom::Mul, Atom::Exp, Atom::Add, Atom::Mul, Atom::Mul]),
        ("swiglu"@, seq![Atom::Mul, Atom::Exp, Atom::Add, Atom::Mul, Atom::Mul]),
        ("glu"@, seq![Atom::Exp, Atom::Add, Atom::Mul]),
        ("relu"@, seq![Atom::Cmp(CmpOp::Max)]),
        ("leaky_relu"@, seq![Atom::Cmp(CmpOp::Max), Atom::Mul, Atom::Add]),
        ("prelu"@, seq![Atom::Cmp(CmpOp::Max), Atom::Mul, Atom::Add]),
        ("sigmoid"@, seq![Atom::Exp, Atom::Add, Atom::Mul]),
        ("tanh"@, seq![Atom::Exp, Atom::Add, Atom::Mul]),
        ("softmax"@, seq![Atom::Exp, Atom::Reduce(ReduceOp::Sum), Atom::Mul]),
        ("conv2d_3x3"@, seq![Atom::Slide(SlidePattern::Window2D { kernel: (3, 3), stride: (1, 1) }), Atom::Mul, Atom::Reduce(ReduceOp::Sum)]),
        ("conv1d_3"@, seq![Atom::Slide(SlidePattern::Window1D { kernel: 3, stride: 1 }), Atom::Mul, Atom::Reduce(ReduceOp::Sum)]),
        ("conv3d_3x3x3"@, seq![Atom::Slide(SlidePattern::Window3D { kernel: (3, 3, 3), stride: (1, 1, 1) }), Atom::Mul, Atom::Reduce(ReduceOp::Sum)]),
        ("patch_embed_16"@, seq![Atom::Slide(SlidePattern::Window2D { kernel: (16, 16), stride: (16, 16) }), Atom::Mul, Atom::Reduce(ReduceOp::Sum)]),
        ("token_embed"@, seq![Atom::Read]),
        ("interpolate"@, seq![Atom::Read, Atom::Mul, Atom::Add]),
        ("unpatchify"@, seq![Atom::Write]),
        ("noise_schedule"@, seq![Atom::Mul, Atom::Exp]),
        ("flow_step"@, seq![Atom::Mul, Atom::Add, Atom::Exp]),
        ("quantize"@, seq![Atom::Mul, Atom::Cmp(CmpOp::Max), Atom::Cmp(CmpOp::Min)]),
        ("dequantize"@, seq![Atom::Mul, Atom::Add]),
        ("sample"@, seq![Atom::Exp, Atom::Reduce(ReduceOp::Sum), Atom::Mul, Atom::Cmp(CmpOp::Max)]),
        ("lora_apply"@, seq![Atom::Slide(SlidePattern::Window1D { kernel: 1, stride: 1 }), Atom::Mul, Atom::Reduce(ReduceOp::Sum), Atom::Mul, Atom::Reduce(ReduceOp::Sum), Atom::Mul, Atom::Add]),
        ("kron"@, seq![Atom::Mul]),
        ("matrix_inverse"@, seq![Atom::Mul, Atom::Add, Atom::Reduce(ReduceOp::Sum)]),
        ("fused_norm_matmul"@, seq![Atom::Mul, Atom::Reduce(ReduceOp::Sum), Atom::Exp, Atom::Mul, Atom::Slide(SlidePattern::Window1D { kernel: 1, stride: 1 }), Atom::Mul, Atom::Reduce(ReduceOp::Sum)]),
        ("fused_skip_norm"@, seq![Atom::Add, Atom::Mul, Atom::Reduce(ReduceOp::Sum), Atom::Exp, Atom::Mul]),
        ("fused_swiglu"@, seq![Atom::Mul, Atom::Exp, Atom::Add, Atom::Mul, Atom::Mul]),
        ("flash_attention"@, seq![Atom::Mul, Atom::Reduce(ReduceOp::Sum), Atom::Exp, Atom::Reduce(ReduceOp::Sum), Atom::Mul, Atom::Mul, Atom::Reduce(ReduceOp::Sum)]),
        ("argmax"@, seq![Atom::Cmp(CmpOp::GreaterThan), Atom::Reduce(ReduceOp::Max)]),
    ]
}

/// The registry built by registering `entries` in order; a later entry
/// replaces an earlier one with the same formula hash.
pub open spec fn registry_of(entries: Seq<(Seq<char>, Seq<Atom>)>) -> Map<u64, (Seq<char>, Seq<Atom>)>
    decreases entries.len(),
{
    if entries.len() == 0 {
        Map::empty()
    } else {
        let e = entries.last();
        registry_of(entries.drop_last()).insert(spec_formula_hash(e.1), e)
    }
}

fn jet_table_exec() -> (t: Vec<(&'static str, Vec<Atom>)>)
    ensures
        t@.len() == jet_table().len(),
        forall|i: int| 0 <= i < t@.len() ==> (#[trigger] t@[i]).0@ == jet_table()[i].0 && t@[i].1@ == jet_table()[i].1,
{
    let mut t: Vec<(&'static str, Vec<Atom>)> = Vec::new();
    t.push(("matmul", vec![Atom::Slide(SlidePattern::Window1D { kernel: 1, stride: 1 }), Atom::Mul, Atom::Reduce(ReduceOp::Sum)]));
    t.push(("add", vec![Atom::Add]));
    t.push(("mul", vec![Atom::Mul]));
    t.push(("sub", vec![Atom::Add, Atom::Mul]));
    t.push(("div", vec![Atom::Mul, Atom::Exp]));
    t.push(("transpose", vec![Atom::Read]));
    t.push(("concat", vec![Atom::Write]));
    t.push(("clamp", vec![Atom::Cmp(CmpOp::Max), Atom::Cmp(CmpOp::Min)]));
    t.push(("nan_to_num", vec![Atom::Cmp(CmpOp::LessThan), Atom::Mul, Atom::Add]));
    t.push(("sdpa", vec![Atom::Mul, Atom::Reduce(ReduceOp::Sum), Atom::Exp, Atom::Reduce(ReduceOp::Sum), Atom::Mul, Atom::Mul, Atom::Reduce(ReduceOp::Sum)]));
    t.push(("kv_cache", vec![Atom::Write, Atom::Read]));
    t.push(("rope", vec![Atom::Mul, Atom::Add]));
    t.push(("sinusoidal_embed", vec![Atom::Mul, Atom::Exp]));
    t.push(("relative_pos_embedding", vec![Atom::Read]));
    t.push(("rmsnorm", vec![Atom::Mul, Atom::Reduce(ReduceOp::Sum), Atom::Exp, Atom::Mul]));
    t.push(("layernorm", vec![Atom::Reduce(ReduceOp::Mean), Atom::Add, Atom::Mul, Atom::Reduce(ReduceOp::Mean), Atom::Mul, Atom::Add]));
    t.push(("batchnorm", vec![Atom::Add, Atom::Mul, Atom::Mul, Atom::Add]));
    t.push(("groupnorm", vec![Atom::Reduce(ReduceOp::Mean), Atom::Add, Atom::Mul, Atom::Reduce(ReduceOp::Mean), Atom::Mul, Atom::Add]));
    t.push(("instancenorm", vec![Atom::Reduce(ReduceOp::Mean), Atom::Add, Atom::Mul, Atom::Reduce(ReduceOp::Mean), Atom::Mul]));
    t.push(("adaln", vec![Atom::Mul, Atom::Add]));
    t.push(("silu", vec![Atom::Mul, Atom::Exp, Atom::Add, Atom::Mul]));
    t.push(("gelu", vec![Atom::Mul, Atom::Exp, Atom::Add, Atom::Mul]));
    t.push(("geglu", vec![Atom::Mul, Atom::Exp, Atom::Add, Atom::Mul, Atom::Mul]));
    t.push(("swiglu", vec![Atom::Mul, Atom::Exp, Atom::Add, Atom::Mul, Atom::Mul]));
    t.push(("glu", vec![Atom::Exp, Atom::Add, Atom::Mul]));
    t.push(("relu", vec![Atom::Cmp(CmpOp::Max)]));
    t.push(("leaky_relu", vec![Atom::Cmp(CmpOp::Max), Atom::Mul, Atom::Add]));
    t.push(("prelu", vec![Atom::Cmp(CmpOp::Max), Atom::Mul, Atom::Add]));
    t.push(("sigmoid", vec![Atom::Exp, Atom::Add, Atom::Mul]));
    t.push(("tanh", vec![Atom::Exp, Atom::Add, Atom::Mul]));
    t.push(("softmax", vec![Atom::Exp, Atom::Reduce(ReduceOp::Sum), Atom::Mul]));
    t.push(("conv2d_3x3", vec![Atom::Slide(SlidePattern::Window2D { kernel: (3, 3), stride: (1, 1) }), Atom::Mul, Atom::Reduce(ReduceOp::Sum)]));
    t.push(("conv1d_3", vec![Atom::Slide(SlidePattern::Window1D { kernel: 3, stride: 1 }), Atom::Mul, Atom::Reduce(ReduceOp::Sum)]));
    t.push(("conv3d_3x3x3", vec![Atom::Slide(SlidePattern::Window3D { kernel: (3, 3, 3), stride: (1, 1, 1) }), Atom::Mul, Atom::Reduce(ReduceOp::Sum)]));
    t.push(("patch_embed_16", vec![Atom::Slide(SlidePattern::Window2D { kernel: (16, 16), stride: (16, 16) }), Atom::Mul, Atom::Reduce(ReduceOp::Sum)]));
    t.push(("token_embed", vec![Atom::Read]));
    t.push(("interpolate", vec![Atom::Read, Atom::Mul, Atom::Add]));
    t.push(("unpatchify", vec![Atom::Write]));
    t.push(("noise_schedule", vec![Atom::Mul, Atom::Exp]));
    t.push(("flow_step", vec![Atom::Mul, Atom::Add, Atom::Exp]));
    t.push(("quantize", vec![Atom::Mul, Atom::Cmp(CmpOp::Max), Atom::Cmp(CmpOp::Min)]));
    t.push(("dequantize", vec![Atom::Mul, Atom::Add]));
    t.push(("sample", vec![Atom::Exp, Atom::Reduce(ReduceOp::Sum), Atom::Mul, Atom::Cmp(CmpOp::Max)]));
    t.push(("lora_apply", vec![Atom::Slide(SlidePattern::Window1D { kernel: 1, stride: 1 }), Atom::Mul, Atom::Reduce(ReduceOp::Sum), Atom::Mul, Atom::Reduce(ReduceOp::Sum), Atom::Mul, Atom::Add]));
    t.push(("kron", vec![Atom::Mul]));
    t.push(("matrix_inverse", vec![Atom::Mul, Atom::Add, Atom::Reduce(ReduceOp::Sum)]));
    t.push(("fused_norm_matmul", vec![Atom::Mul, Atom::Reduce(ReduceOp::Sum), Atom::Exp, Atom::Mul, Atom::Slide(SlidePattern::Window1D { kernel: 1, stride: 1 }), Atom::Mul, Atom::Reduce(ReduceOp::Sum)]));
    t.push(("fused_skip_norm", vec![Atom::Add, Atom::Mul, Atom::Reduce(ReduceOp::Sum), Atom::Exp, Atom::Mul]));
    t.push(("fused_swiglu", vec![Atom::Mul, Atom::Exp, Atom::Add, Atom::Mul, Atom::Mul]));
    t.push(("flash_attention", vec![Atom::Mul, Atom::Reduce(ReduceOp::Sum), Atom::Exp, Atom::Reduce(ReduceOp::Sum), Atom::Mul, Atom::Mul, Atom::Reduce(ReduceOp::Sum)]));
    t.push(("argmax", vec![Atom::Cmp(CmpOp::GreaterThan), Atom::Reduce(ReduceOp::Max)]));
    assert(t@.len() == jet_table().len());
    t
}

} // verus!

verus! {

pub open spec fn sorted_by_name<'a>(s: Seq<(&'a str, FormulaHash)>) -> bool {
    forall|i: int, j: int| 0 <= i < j < s.len() ==> bytes_le(
        (#[trigger] s[i]).0.spec_bytes(),
        (#[trigger] s[j]).0.spec_bytes(),
    )
}

/// Insert `e` into a name-sorted vector after every entry whose name is
/// not greater than `e`'s.
fn insert_by_name<'a>(out: &mut Vec<(&'a str, FormulaHash)>, e: (&'a str, FormulaHash)) -> (p: usize)
    requires
        sorted_by_name(old(out)@),
    ensures
        p <= old(out)@.len(),
        final(out)@ == old(out)@.insert(p as int, e),
        sorted_by_name(final(out)@),
{
    let mut p: usize = 0;
    while p < out.len() && str_le(out[p].0, e.0)
        invariant
            p <= out@.len(),
            forall|q: int| 0 <= q < p ==> bytes_le((#[trigger] out@[q]).0.spec_bytes(), e.0.spec_bytes()),
        decreases out@.len() - p,
    {
        p = p + 1;
    }
    let ghost old_out = out@;
    proof {
        if p < old_out.len() {
            lemma_bytes_le_total(old_out[p as int].0.spec_bytes(), e.0.spec_bytes());
        }
    }
    out.insert(p, e);
    proof {
        assert(out@ == old_out.insert(p as int, e));
        assert forall|i: int, j: int| 0 <= i < j < out@.len() implies bytes_le(
            (#[trigger] out@[i]).0.spec_bytes(),
            (#[trigger] out@[j]).0.spec_bytes(),
        ) by {
            if j < p {
                assert(out@[i] == old_out[i]);
                assert(out@[j] == old_out[j]);
            } else if j == p {
                assert(out@[i] == old_out[i]);
            } else if i == p {
                assert(out@[j] == old_out[j - 1]);
                if j - 1 > p {
                    assert(bytes_le(old_out[p as int].0.spec_bytes(), old_out[j - 1].0.spec_bytes()));
                    lemma_bytes_le_trans(
                        e.0.spec_bytes(),
                        old_out[p as int].0.spec_bytes(),
                        old_out[j - 1].0.spec_bytes(),
                    );
                }
            } else if i < p {
                assert(out@[i] == old_out[i]);
                assert(out@[j] == old_out[j - 1]);
            } else {
                assert(out@[i] == old_out[i - 1]);
                assert(out@[j] == old_out[j - 1]);
            }
        }
    }
    p
}

/// Insertion sort of (name, hash) pairs by name, in the order of `str`.
fn sort_pairs_by_name<'a>(pairs: Vec<(&'a str, FormulaHash)>) -> (r: Vec<(&'a str, FormulaHash)>)
    ensures
        r@.to_multiset() == pairs@.to_multiset(),
        sorted_by_name(r@),
{
    broadcast use vstd::seq_lib::group_to_multiset_ensures;

    let mut out: Vec<(&'a str, FormulaHash)> = Vec::new();
    let mut n: usize = 0;
    proof {
        assert(pairs@.take(0) =~= Seq::<(&'a str, FormulaHash)>::empty());
        assert(out@ =~= Seq::<(&'a str, FormulaHash)>::empty());
    }
    while n < pairs.len()
        invariant
            n <= pairs@.len(),
            out@.to_multiset() == pairs@.take(n as int).to_multiset(),
            sorted_by_name(out@),
        decreases pairs@.len() - n,
    {
        let e = pairs[n];
        let ghost old_out = out@;
        let p = insert_by_name(&mut out, e);
        proof {
            vstd::seq_lib::to_multiset_insert(old_out, p as int, e);
            assert(pairs@.take(n + 1) =~= pairs@.take(n as int).push(e));
            vstd::seq_lib::to_multiset_build(pairs@.take(n as int), e);
        }
        n = n + 1;
    }
    assert(pairs@.take(n as int) =~= pairs@);
    out
}

/// Jet registry: maps formula hash to jet. Populated at construction.
pub struct JetRegistry {
    jets: HashMap<FormulaHash, Jet>,
}

impl View for JetRegistry {
    type V = Map<u64, (Seq<char>, Seq<Atom>)>;

    closed spec fn view(&self) -> Self::V {
        self.jets@.map_values(|j: Jet| (j.name@, j.atoms@))
    }
}

impl JetRegistry {
    /// Each jet is stored under its own formula hash.
    pub closed spec fn wf(&self) -> bool {
        forall|k: u64| #[trigger] self.jets@.contains_key(k) ==> {
            &&& self.jets@[k].hash == k
            &&& k == spec_formula_hash(self.jets@[k].atoms@)
        }
    }

    /// Create a registry with all known jets registered.
    pub fn new() -> (r: Self)
        ensures
            r.wf(),
            r@ == registry_of(jet_table()),
    {
        let mut registry = Self { jets: HashMap::new() };
        proof {
            assert(registry@ =~= registry_of(seq![]));
        }
        registry.register_all();
        registry
    }

    /// Look up a jet by its formula hash.
    pub fn lookup(&self, hash: FormulaHash) -> (r: Option<&Jet>)
        requires
            self.wf(),
        ensures
            match r {
                Some(j) => self@.contains_key(hash) && self@[hash] == (j.name@, j.atoms@) && j.hash == hash
                    && spec_formula_hash(j.atoms@) == hash,
                None => !self@.contains_key(hash),
            },
    {
        self.jets.get(&hash)
    }

    /// Every jet is registered under the hash of its own atoms.
    pub proof fn lemma_keys_are_hashes(&self, k: u64)
        requires
            self.wf(),
            self@.contains_key(k),
        ensures
            k == spec_formula_hash(self@[k].1),
    {
        assert(self.jets@.contains_key(k));
    }

    /// Look up a jet by decomposing an op and hashing its atoms; ops that
    /// decompose to no atoms (layout-only ops) have no jet.
    pub fn lookup_op(&self, op: &Op) -> (r: Option<&Jet>)
        requires
            self.wf(),
        ensures
            spec_decompose(*op).len() == 0 ==> r is None,
            spec_decompose(*op).len() > 0 ==> match r {
                Some(j) => self@.contains_key(spec_formula_hash(spec_decompose(*op)))
                    && self@[spec_formula_hash(spec_decompose(*op))] == (j.name@, j.atoms@),
                None => !self@.contains_key(spec_formula_hash(spec_decompose(*op))),
            },
    {
        let atoms = decompose(op);
        if atoms.len() == 0 {
            return None;
        }
        let hash = formula_hash(atoms.as_slice());
        self.lookup(hash)
    }

    /// Number of registered jets.
    pub fn len(&self) -> (r: usize)
        ensures
            r == self@.len(),
    {
        proof {
            assert(self@.dom() =~= self.jets@.dom());
        }
        self.jets.len()
    }

    /// Whether the registry is empty.
    pub fn is_empty(&self) -> (r: bool)
        ensures
            r == (self@.len() == 0),
    {
        proof {
            assert(self@.dom() =~= self.jets@.dom());
        }
        self.jets.is_empty()
    }

    /// All registered jets as (name, hash) pairs, sorted by name.
    pub fn list(&self) -> (r: Vec<(&str, FormulaHash)>)
        requires
            self.wf(),
        ensures
            r@.len() == self@.len(),
            forall|i: int| 0 <= i < r@.len() ==> self@.contains_key((#[trigger] r@[i]).1)
                && r@[i].0@ == self@[r@[i].1].0,
            forall|k: u64| self@.contains_key(k) ==> exists|i: int| 0 <= i < r@.len() && (#[trigger] r@[i]).1 == k,
            forall|i: int, j: int| 0 <= i < j < r@.len() ==> (#[trigger] r@[i]).1 != (#[trigger] r@[j]).1,
            sorted_by_name(r@),
    {
        let mut pairs: Vec<(&str, FormulaHash)> = Vec::new();
        let ghost vals = spec_values_iter(&self.jets).remaining();
        for j in it: self.jets.values()
            invariant
                it.seq() == vals,
                pairs@.len() == it.index(),
                forall|i: int| 0 <= i < pairs@.len() ==> (#[trigger] pairs@[i]).0 == it.seq()[i].name
                    && pairs@[i].1 == it.seq()[i].hash,
        {
            pairs.push((j.name, j.hash));
        }
        proof {
            assert(vals.unref().to_set() == self.jets@.values());
            assert(vals.len() == self.jets@.dom().len());
            assert(self@.dom() =~= self.jets@.dom());
            assert forall|k: int| 0 <= k < pairs@.len() implies self@.contains_key((#[trigger] pairs@[k]).1)
                && pairs@[k].0@ == self@[pairs@[k].1].0 by {
                let v = *vals[k];
                assert(vals.unref()[k] == v);
                assert(vals.unref().to_set().contains(v));
                let kk = choose|kk: u64| self.jets@.contains_key(kk) && self.jets@[kk] == v;
                assert(self.jets@[kk].hash == kk);
            }
        }
        let r = sort_pairs_by_name(pairs);
        proof {
            broadcast use vstd::seq_lib::group_to_multiset_ensures;
            assert forall|i: int| 0 <= i < r@.len() implies self@.contains_key((#[trigger] r@[i]).1)
                && r@[i].0@ == self@[r@[i].1].0 by {
                assert(r@.to_multiset().count(r@[i]) > 0);
                assert(pairs@.contains(r@[i]));
                let k = choose|k: int| 0 <= k < pairs@.len() && pairs@[k] == r@[i];
                assert(self@.contains_key(pairs@[k].1));
            }
            assert forall|key: u64| self@.contains_key(key) implies exists|i: int| 0 <= i < r@.len() && (#[trigger] r@[i]).1 == key by {
                let v = self.jets@[key];
                assert(self.jets@.values().contains(v));
                assert(vals.unref().to_set().contains(v));
                let k = choose|k: int| 0 <= k < vals.unref().len() && vals.unref()[k] == v;
                assert(pairs@[k].1 == vals[k].hash);
                assert(v.hash == key);
                assert(pairs@.to_multiset().count(pairs@[k]) > 0);
                assert(r@.contains(pairs@[k]));
                let i = choose|i: int| 0 <= i < r@.len() && r@[i] == pairs@[k];
                assert(r@[i].1 == key);
            }
            vstd::seq_lib::to_multiset_len(r@);
            vstd::seq_lib::to_multiset_len(pairs@);
            assert(r@.len() == pairs@.len());
            let hs = r@.map_values(|p: (&str, FormulaHash)| p.1);
            assert(hs.to_set() =~= self@.dom()) by {
                assert forall|k: u64| #[trigger] hs.to_set().contains(k) implies self@.dom().contains(k) by {
                    let i = choose|i: int| 0 <= i < hs.len() && hs[i] == k;
                    assert(self@.contains_key(r@[i].1));
                }
                assert forall|k: u64| #[trigger] self@.dom().contains(k) implies hs.to_set().contains(k) by {
                    let i = choose|i: int| 0 <= i < r@.len() && (#[trigger] r@[i]).1 == k;
                    assert(hs[i] == k);
                }
            }
            hs.lemma_no_dup_set_cardinality();
            assert forall|i: int, j: int| 0 <= i < j < r@.len() implies (#[trigger] r@[i]).1 != (#[trigger] r@[j]).1 by {
                assert(hs[i] == r@[i].1);
                assert(hs[j] == r@[j].1);
            }
        }
        r
    }

    fn register(&mut self, name: &'static str, atoms: Vec<Atom>)
        requires
            old(self).wf(),
        ensures
            final(self).wf(),
            final(self)@ == old(self)@.insert(spec_formula_hash(atoms@), (name@, atoms@)),
    {
        let hash = formula_hash(atoms.as_slice());
        let ghost a = atoms@;
        self.jets.insert(hash, Jet { name, hash, atoms });
        proof {
            assert(self@ =~= old(self)@.insert(spec_formula_hash(a), (name@, a)));
        }
    }

    fn register_all(&mut self)
        requires
            old(self).wf(),
            old(self)@ == registry_of(seq![]),
        ensures
            final(self).wf(),
            final(self)@ == registry_of(jet_table()),
    {
        let mut table = jet_table_exec();
        let n = table.len();
        let ghost spec_t = jet_table();
        let mut i: usize = 0;
        while i < n
            invariant
                n == spec_t.len(),
                spec_t == jet_table(),
                i <= n,
                table@.len() == n - i,
                forall|k: int| 0 <= k < table@.len() ==> (#[trigger] table@[k]).0@ == spec_t[i + k].0
                    && table@[k].1@ == spec_t[i + k].1,
                self.wf(),
                self@ == registry_of(spec_t.take(i as int)),
            decreases n - i,
        {
            let ghost old_table = table@;
            let (name, atoms) = table.remove(0);
            proof {
                assert forall|k: int| 0 <= k < table@.len() implies (#[trigger] table@[k]).0@ == spec_t[i + 1 + k].0
                    && table@[k].1@ == spec_t[i + 1 + k].1 by {
                    assert(table@[k] == old_table[k + 1]);
                }
                assert(name@ == spec_t[i as int].0);
                assert(atoms@ == spec_t[i as int].1);
            }
            self.register(name, atoms);
            i = i + 1;
            proof {
                let s = spec_t.take(i as int);
                assert(s.drop_last() =~= spec_t.take(i - 1));
                assert(s.last() == spec_t[i - 1]);
            }
        }
        assert(spec_t.take(n as int) =~= spec_t);
    }
}

} // verus!
