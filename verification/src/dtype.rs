//! Tensor element data types.

use vstd::prelude::*;

verus! {

/// Tensor element data type.
#[allow(non_camel_case_types)]
#[derive(Clone, Copy, Debug, PartialEq, Eq, Hash, Structural)]
pub enum DType {
    F32,
    F16,
    BF16,
    I8,
    U8,
    Bool,
    Q8,
    Q4,
    Q4_1,
    Ternary,
    Q2_K,
    Q3_K,
    Q4_K,
    Q5_K,
    Q6_K,
}

impl DType {
    /// Bytes per element (approximate, one byte, for the quantized types).
    pub open spec fn spec_element_size(self) -> nat {
        match self {
            DType::F32 => 4,
            DType::F16 | DType::BF16 => 2,
            _ => 1,
        }
    }

    /// Bits per element.
    pub open spec fn spec_bits(self) -> nat {
        match self {
            DType::F32 => 32,
            DType::F16 | DType::BF16 => 16,
            DType::I8 | DType::U8 | DType::Q8 => 8,
            DType::Bool => 1,
            DType::Q4 | DType::Q4_1 | DType::Q4_K => 4,
            DType::Ternary => 2,
            DType::Q2_K => 2,
            DType::Q3_K => 3,
            DType::Q5_K => 5,
            DType::Q6_K => 6,
        }
    }

    pub open spec fn spec_is_float(self) -> bool {
        self is F32 || self is F16 || self is BF16
    }

    pub open spec fn spec_is_k_quant(self) -> bool {
        self is Q2_K || self is Q3_K || self is Q4_K || self is Q5_K || self is Q6_K
    }

    pub open spec fn spec_is_quantized(self) -> bool {
        self is Q8 || self is Q4 || self is Q4_1 || self is Ternary || self.spec_is_k_quant()
    }

    /// Lower-case name of the type.
    pub open spec fn spec_name(self) -> Seq<char> {
        match self {
            DType::F32 => "f32"@,
            DType::F16 => "f16"@,
            DType::BF16 => "bf16"@,
            DType::I8 => "i8"@,
            DType::U8 => "u8"@,
            DType::Bool => "bool"@,
            DType::Q8 => "q8"@,
            DType::Q4 => "q4"@,
            DType::Q4_1 => "q4_1"@,
            DType::Ternary => "ternary"@,
            DType::Q2_K => "q2_k"@,
            DType::Q3_K => "q3_k"@,
            DType::Q4_K => "q4_k"@,
            DType::Q5_K => "q5_k"@,
            DType::Q6_K => "q6_k"@,
        }
    }

    /// Size of one element in bytes; for quantized types the per-element
    /// size is approximate (the real layout is per block).
    pub fn element_size(&self) -> (r: usize)
        ensures
            r == self.spec_element_size(),
    {
        match self {
            DType::F32 => 4,
            DType::F16 | DType::BF16 => 2,
            DType::I8 | DType::U8 => 1,
            DType::Bool => 1,
            DType::Q8 => 1,
            DType::Q4 | DType::Q4_1 => 1,
            DType::Ternary => 1,
            DType::Q2_K => 1,
            DType::Q3_K => 1,
            DType::Q4_K => 1,
            DType::Q5_K => 1,
            DType::Q6_K => 1,
        }
    }

    /// Size in bits per element.
    pub fn bits(&self) -> (r: usize)
        ensures
            r == self.spec_bits(),
    {
        match self {
            DType::F32 => 32,
            DType::F16 | DType::BF16 => 16,
            DType::I8 | DType::U8 | DType::Q8 => 8,
            DType::Bool => 1,
            DType::Q4 | DType::Q4_1 | DType::Q4_K => 4,
            DType::Ternary => 2,
            DType::Q2_K => 2,
            DType::Q3_K => 3,
            DType::Q5_K => 5,
            DType::Q6_K => 6,
        }
    }

    /// Whether this is a floating point type.
    pub fn is_float(&self) -> (r: bool)
        ensures
            r == self.spec_is_float(),
    {
        matches!(self, DType::F32 | DType::F16 | DType::BF16)
    }

    /// Whether this is a quantized type.
    pub fn is_quantized(&self) -> (r: bool)
        ensures
            r == self.spec_is_quantized(),
    {
        matches!(
            self,
            DType::Q8 | DType::Q4 | DType::Q4_1 | DType::Ternary | DType::Q2_K | DType::Q3_K
                | DType::Q4_K | DType::Q5_K | DType::Q6_K
        )
    }

    /// Human-readable name.
    pub fn name(&self) -> (r: &'static str)
        ensures
            r@ == self.spec_name(),
    {
        match self {
            DType::F32 => "f32",
            DType::F16 => "f16",
            DType::BF16 => "bf16",
            DType::I8 => "i8",
            DType::U8 => "u8",
            DType::Bool => "bool",
            DType::Q8 => "q8",
            DType::Q4 => "q4",
            DType::Q4_1 => "q4_1",
            DType::Ternary => "ternary",
            DType::Q2_K => "q2_k",
            DType::Q3_K => "q3_k",
            DType::Q4_K => "q4_k",
            DType::Q5_K => "q5_k",
            DType::Q6_K => "q6_k",
        }
    }

    /// Whether this is a K-quant type (super blocks of 256 elements).
    pub fn is_k_quant(&self) -> (r: bool)
        ensures
            r == self.spec_is_k_quant(),
    {
        matches!(self, DType::Q2_K | DType::Q3_K | DType::Q4_K | DType::Q5_K | DType::Q6_K)
    }
}

/// Every K-quant type is quantized, and no quantized type is a float type.
pub proof fn lemma_dtype_classes_disjoint(d: DType)
    ensures
        d.spec_is_k_quant() ==> d.spec_is_quantized(),
        !(d.spec_is_quantized() && d.spec_is_float()),
{
}

} // verus!
