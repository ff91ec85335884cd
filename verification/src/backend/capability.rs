//! What a backend can be asked for.
use vstd::prelude::*;

verus! {

/// Something that a backend may accelerate.
#[derive(Clone, Copy, Debug, PartialEq, Eq, Structural)]
pub enum Capability {
    F32Gemv,
    QuantMatVec,
    Q4VecMat,
    FlashAttentionV2,
    KvCompressionRotorQuant,
    DecodeToken,
    PrefillQ4,
    Cuda,
    CudaOxide,
}

} // verus!
