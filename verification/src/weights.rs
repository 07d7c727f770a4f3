//! Weights kept quantized on the host: raw bytes in their packed block
//! format, with the shape and element type needed to read them.

use vstd::prelude::*;
use crate::dtype::DType;
use crate::memplan::{dims_product, product_of, products_fit};

verus! {

/// A weight stored as raw bytes (natural layout for F32/F16, packed
/// blocks for quantized types).
#[derive(Clone)]
pub struct QuantWeight {
    pub shape: Vec<usize>,
    pub dtype: DType,
    pub bytes: std::sync::Arc<Vec<u8>>,
}

impl QuantWeight {
    /// Number of elements: the product of the shape.
    pub fn numel(&self) -> (r: usize)
        requires
            products_fit(self.shape@),
        ensures
            r == dims_product(self.shape@),
    {
        product_of(&self.shape)
    }

    /// A rank-2 weight `[N, K]` has `N * K` elements.
    pub proof fn lemma_numel_rank2(&self)
        requires
            self.shape@.len() == 2,
        ensures
            dims_product(self.shape@) == self.shape@[0] * self.shape@[1],
    {
        let s = self.shape@;
        let t = s.drop_last();
        assert(t.drop_last() =~= Seq::<usize>::empty());
        assert(dims_product(t.drop_last()) == 1);
        assert(t.last() == s[0]);
        assert(dims_product(t) == dims_product(t.drop_last()) * (t.last() as nat));
        assert(s.last() == s[1]);
        assert(dims_product(s) == dims_product(t) * (s.last() as nat));
    }

    /// Rows of a matmul weight `[N, K]`: the first dimension.
    pub fn n(&self) -> (r: usize)
        requires
            self.shape@.len() >= 1,
        ensures
            r == self.shape@[0],
    {
        self.shape[0]
    }

    /// Columns of a matmul weight `[N, K]`: the second dimension.
    pub fn k(&self) -> (r: usize)
        requires
            self.shape@.len() >= 2,
        ensures
            r == self.shape@[1],
    {
        self.shape[1]
    }
}

} // verus!
