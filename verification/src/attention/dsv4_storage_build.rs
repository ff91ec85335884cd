//! Shaping one layer's tensors into [`DsV4LayerWeightStorage`].
//!
//! What a layer needs is a list of kinds with their shapes, in the order in
//! which they are looked up; the first that is missing or has another number
//! of elements is the error.
use vstd::prelude::*;
use vstd::string::*;
use crate::attention::dsv4_gguf_reader::{DsV4TensorKind, LayerTensors};
use crate::attention::dsv4_params::{
    CompressorParams, DsV4AttnBlockParams, DsV4RopeMode, DsV4YarnParams, IndexerParams,
};
use crate::attention::dsv4_storage::{
    CompressorModel, CompressorStorage, DsV4LayerWeightStorage, IndexerModel, IndexerStorage,
    StorageModel,
};
use crate::tensor::{block_of, cube_indexable, grid_of, matrix_indexable, Cube, Matrix};
use crate::text::{decimal, decimal_list, decimal_list_text, decimal_text};

verus! {

/// Model-wide hyperparameters. Floating-point values are bit patterns.
#[derive(Clone, Copy, Debug, PartialEq, Eq, Structural)]
pub struct DsV4Hyperparams {
    pub n_embd: usize,
    pub n_head: usize,
    pub head_dim: usize,
    pub q_lora_rank: usize,
    pub n_groups: usize,
    pub o_lora_rank: usize,
    pub n_rot: usize,
    pub rope_base: u64,
    pub rope_mode: DsV4RopeMode,
    pub window_size: usize,
    pub norm_eps: u32,
    /// Set where the model has an indexer.
    pub indexer_head_size: Option<usize>,
    pub n_index_head: Option<usize>,
    pub top_k: Option<usize>,
    pub n_hc: usize,
    pub n_expert: usize,
    pub n_expert_used: usize,
    pub n_ff_exp: usize,
    pub n_expert_shared: usize,
    pub expert_weights_norm: bool,
    pub expert_weights_scale: u32,
    pub yarn: Option<DsV4YarnParams>,
    pub rope_base_swa: Option<u64>,
}

impl DsV4Hyperparams {
    /// The configuration of the attention block.
    pub open spec fn attn_params_spec(self) -> DsV4AttnBlockParams {
        DsV4AttnBlockParams {
            n_embd: self.n_embd,
            n_head: self.n_head,
            head_dim: self.head_dim,
            q_lora_rank: self.q_lora_rank,
            n_groups: self.n_groups,
            o_lora_rank: self.o_lora_rank,
            n_rot: self.n_rot,
            rope_base: self.rope_base,
            rope_mode: self.rope_mode,
            window_size: self.window_size,
            norm_eps: self.norm_eps,
            yarn: None,
        }
    }

    /// The configuration of the attention block.
    pub fn attn_params(&self) -> (p: DsV4AttnBlockParams)
        ensures
            p == self.attn_params_spec(),
    {
        DsV4AttnBlockParams {
            n_embd: self.n_embd,
            n_head: self.n_head,
            head_dim: self.head_dim,
            q_lora_rank: self.q_lora_rank,
            n_groups: self.n_groups,
            o_lora_rank: self.o_lora_rank,
            n_rot: self.n_rot,
            rope_base: self.rope_base,
            rope_mode: self.rope_mode,
            window_size: self.window_size,
            norm_eps: self.norm_eps,
            yarn: None,
        }
    }

    /// The configuration of a compressor of heads of a size.
    pub open spec fn compressor_params_spec(
        self,
        head_dim: usize,
        compress_ratio: usize,
    ) -> CompressorParams {
        CompressorParams {
            head_dim,
            n_embd: self.n_embd,
            compress_ratio,
            n_rot: self.n_rot,
            rope_base: self.rope_base,
            rope_mode: self.rope_mode,
            norm_eps: self.norm_eps,
        }
    }

    fn compressor_params(&self, head_dim: usize, compress_ratio: usize) -> (p: CompressorParams)
        ensures
            p == self.compressor_params_spec(head_dim, compress_ratio),
    {
        CompressorParams {
            head_dim,
            n_embd: self.n_embd,
            compress_ratio,
            n_rot: self.n_rot,
            rope_base: self.rope_base,
            rope_mode: self.rope_mode,
            norm_eps: self.norm_eps,
        }
    }

    /// The configuration of the indexer.
    pub open spec fn indexer_params_spec(self, inh: usize, ihead: usize) -> IndexerParams {
        IndexerParams {
            n_embd: self.n_embd,
            q_lora_rank: self.q_lora_rank,
            n_index_head: inh,
            n_index_head_size: ihead,
            n_rot: self.n_rot,
            rope_base: self.rope_base,
            rope_mode: self.rope_mode,
        }
    }
}

/// Why a layer could not be built.
#[derive(Debug)]
pub enum DsV4BuildError {
    /// A tensor that the variant needs is not there.
    MissingTensor(DsV4TensorKind),
    /// A tensor has another number of elements than its shape.
    ShapeMismatch { kind: DsV4TensorKind, expected: Vec<usize>, got_elems: usize },
    /// A layer with an indexer, but no indexer hyperparameters.
    MissingIndexerHyperparams,
    /// A compress ratio of four without indexer support.
    IndexerRequiredForCompressRatio4,
}

/// What a [`DsV4BuildError`] stands for.
pub enum BuildFault {
    MissingTensor(DsV4TensorKind),
    ShapeMismatch { kind: DsV4TensorKind, expected: Seq<usize>, got_elems: nat },
    MissingIndexerHyperparams,
    IndexerRequiredForCompressRatio4,
}

impl View for DsV4BuildError {
    type V = BuildFault;

    open spec fn view(&self) -> BuildFault {
        match self {
            DsV4BuildError::MissingTensor(k) => BuildFault::MissingTensor(*k),
            DsV4BuildError::ShapeMismatch { kind, expected, got_elems } => BuildFault::ShapeMismatch {
                kind: *kind,
                expected: expected@,
                got_elems: *got_elems as nat,
            },
            DsV4BuildError::MissingIndexerHyperparams => BuildFault::MissingIndexerHyperparams,
            DsV4BuildError::IndexerRequiredForCompressRatio4 => {
                BuildFault::IndexerRequiredForCompressRatio4
            },
        }
    }
}

/// The product of the axes.
pub open spec fn shape_size(dims: Seq<usize>) -> nat
    decreases dims.len(),
{
    if dims.len() == 0 {
        1
    } else {
        shape_size(dims.drop_last()) * dims.last() as nat
    }
}

/// Every partial product of the axes is a 64-bit number.
pub open spec fn shape_fits(dims: Seq<usize>) -> bool {
    forall|k: int| 0 <= k <= dims.len() ==> shape_size(#[trigger] dims.take(k)) <= u64::MAX
}

fn shape_elements(dims: &Vec<usize>) -> (n: u64)
    requires
        shape_fits(dims@),
    ensures
        n as nat == shape_size(dims@),
{
    let mut n: u64 = 1;
    let mut i: usize = 0;
    assert(dims@.take(0) =~= Seq::<usize>::empty());
    while i < dims.len()
        invariant
            i <= dims@.len(),
            n as nat == shape_size(dims@.take(i as int)),
            shape_fits(dims@),
        decreases dims@.len() - i,
    {
        assert(dims@.take(i + 1).drop_last() =~= dims@.take(i as int));
        assert(shape_size(dims@.take(i + 1)) <= u64::MAX);
        n = n * dims[i] as u64;
        i += 1;
    }
    assert(dims@.take(i as int) =~= dims@);
    n
}

impl DsV4BuildError {
    /// The message, where the kind at fault is called `kind_name`.
    pub open spec fn message_text(self, kind_name: Seq<char>) -> Seq<char> {
        match self {
            DsV4BuildError::MissingTensor(_) => "missing tensor "@ + kind_name,
            DsV4BuildError::ShapeMismatch { kind: _, expected, got_elems } => "shape mismatch for "@
                + kind_name + ": expected ["@ + decimal_list(
                expected@.map_values(|d: usize| d as u64),
            ) + "] (= "@ + decimal(shape_size(expected@)) + " elements), got "@ + decimal(
                got_elems as nat,
            ),
            DsV4BuildError::MissingIndexerHyperparams => {
                "indexer hyperparams (head_size, n_head, top_k) required"@
            },
            DsV4BuildError::IndexerRequiredForCompressRatio4 => {
                "compress_ratio == 4 requires indexer support"@
            },
        }
    }

    /// The message for a reader, where the kind at fault is called `kind_name`.
    pub fn message(&self, kind_name: &str) -> (t: String)
        requires
            self matches DsV4BuildError::ShapeMismatch { kind, expected, got_elems } ==> shape_fits(
                expected@,
            ),
        ensures
            t@ == self.message_text(kind_name@),
    {
        match self {
            DsV4BuildError::MissingTensor(_) => {
                let mut t: String = String::from_str("missing tensor ");
                t.append(kind_name);
                t
            },
            DsV4BuildError::ShapeMismatch { kind: _, expected, got_elems } => {
                let mut t: String = String::from_str("shape mismatch for ");
                t.append(kind_name);
                t.append(": expected [");
                let mut wide: Vec<u64> = Vec::new();
                let mut i: usize = 0;
                while i < expected.len()
                    invariant
                        i <= expected@.len(),
                        wide@ == expected@.take(i as int).map_values(|d: usize| d as u64),
                    decreases expected@.len() - i,
                {
                    wide.push(expected[i] as u64);
                    i += 1;
                    assert(wide@ =~= expected@.take(i as int).map_values(|d: usize| d as u64));
                }
                assert(expected@.take(i as int) =~= expected@);
                let list: String = decimal_list_text(wide.as_slice());
                t.append(list.as_str());
                t.append("] (= ");
                let n: String = decimal_text(shape_elements(expected));
                t.append(n.as_str());
                t.append(" elements), got ");
                let got: String = decimal_text(*got_elems as u64);
                t.append(got.as_str());
                t
            },
            DsV4BuildError::MissingIndexerHyperparams => String::from_str(
                "indexer hyperparams (head_size, n_head, top_k) required",
            ),
            DsV4BuildError::IndexerRequiredForCompressRatio4 => String::from_str(
                "compress_ratio == 4 requires indexer support",
            ),
        }
    }
}

// ---- what a layer needs ----------------------------------------------------

/// A kind with the shape that its tensor has.
pub type Needed = (DsV4TensorKind, Seq<usize>);

/// What is wrong with the tensor of a kind: it is not there, or its elements
/// are not as many as its shape has.
pub open spec fn fault_of(t: Map<DsV4TensorKind, Seq<u32>>, need: Needed) -> Option<BuildFault> {
    if !t.contains_key(need.0) {
        Some(BuildFault::MissingTensor(need.0))
    } else if t[need.0].len() != shape_size(need.1) {
        Some(
            BuildFault::ShapeMismatch {
                kind: need.0,
                expected: need.1,
                got_elems: t[need.0].len(),
            },
        )
    } else {
        None
    }
}

/// The first fault in a list of needed tensors.
pub open spec fn first_fault(t: Map<DsV4TensorKind, Seq<u32>>, needs: Seq<Needed>) -> Option<
    BuildFault,
>
    decreases needs.len(),
{
    if needs.len() == 0 {
        None
    } else {
        match first_fault(t, needs.drop_last()) {
            Some(f) => Some(f),
            None => fault_of(t, needs.last()),
        }
    }
}

/// The width of one group of heads.
pub open spec fn group_dim(hp: DsV4Hyperparams) -> nat {
    hp.head_dim as nat * (hp.n_head as nat / hp.n_groups as nat)
}

/// The main attention tensors, which every layer needs.
pub open spec fn main_needs(hp: DsV4Hyperparams) -> Seq<Needed> {
    seq![
        (DsV4TensorKind::AttnNorm, seq![hp.n_embd]),
        (DsV4TensorKind::AttnQA, seq![hp.q_lora_rank, hp.n_embd]),
        (DsV4TensorKind::AttnQANorm, seq![hp.q_lora_rank]),
        (DsV4TensorKind::AttnQB, seq![(hp.n_head * hp.head_dim) as usize, hp.q_lora_rank]),
        (DsV4TensorKind::AttnKv, seq![hp.head_dim, hp.n_embd]),
        (DsV4TensorKind::AttnKvANorm, seq![hp.head_dim]),
        (DsV4TensorKind::AttnOutA, seq![hp.n_groups, hp.o_lora_rank, group_dim(hp) as usize]),
        (DsV4TensorKind::AttnOutB, seq![hp.n_embd, (hp.o_lora_rank * hp.n_groups) as usize]),
    ]
}

/// The width of a compressor's projections: two halves where the ratio is
/// four, one otherwise.
pub open spec fn compressor_width(hp: DsV4Hyperparams, compress_ratio: usize) -> nat {
    if compress_ratio == 4 {
        2 * hp.head_dim as nat
    } else {
        hp.head_dim as nat
    }
}

/// The compressor's tensors.
pub open spec fn compressor_needs(hp: DsV4Hyperparams, compress_ratio: usize) -> Seq<Needed> {
    let n_kv = compressor_width(hp, compress_ratio) as usize;
    seq![
        (DsV4TensorKind::AttnCompressorKv, seq![n_kv, hp.n_embd]),
        (DsV4TensorKind::AttnCompressorGate, seq![n_kv, hp.n_embd]),
        (DsV4TensorKind::AttnCompressorApe, seq![compress_ratio, n_kv]),
        (DsV4TensorKind::AttnCompressorNorm, seq![hp.head_dim]),
    ]
}

/// The indexer's tensors.
pub open spec fn indexer_needs(
    hp: DsV4Hyperparams,
    compress_ratio: usize,
    ihead: usize,
    inh: usize,
) -> Seq<Needed> {
    let n_kv = (2 * ihead) as usize;
    seq![
        (DsV4TensorKind::IndexerCompressorKv, seq![n_kv, hp.n_embd]),
        (DsV4TensorKind::IndexerCompressorGate, seq![n_kv, hp.n_embd]),
        (DsV4TensorKind::IndexerCompressorApe, seq![compress_ratio, n_kv]),
        (DsV4TensorKind::IndexerCompressorNorm, seq![ihead]),
        (DsV4TensorKind::IndexerAttnQB, seq![(inh * ihead) as usize, hp.q_lora_rank]),
        (DsV4TensorKind::IndexerProj, seq![inh, hp.n_embd]),
    ]
}

/// The indexer hyperparameters are all there.
pub open spec fn has_indexer_hp(hp: DsV4Hyperparams) -> bool {
    hp.indexer_head_size is Some && hp.n_index_head is Some && hp.top_k is Some
}

/// Why a layer cannot be built, if it cannot.
pub open spec fn build_fault(
    t: Map<DsV4TensorKind, Seq<u32>>,
    hp: DsV4Hyperparams,
    compress_ratio: usize,
) -> Option<BuildFault> {
    match first_fault(t, main_needs(hp)) {
        Some(f) => Some(f),
        None => if compress_ratio == 0 {
            None
        } else {
            match first_fault(t, compressor_needs(hp, compress_ratio)) {
                Some(f) => Some(f),
                None => if compress_ratio != 4 {
                    None
                } else if !has_indexer_hp(hp) {
                    Some(BuildFault::MissingIndexerHyperparams)
                } else {
                    first_fault(
                        t,
                        indexer_needs(
                            hp,
                            compress_ratio,
                            hp.indexer_head_size->Some_0,
                            hp.n_index_head->Some_0,
                        ),
                    )
                },
            }
        },
    }
}

// ---- what is built ---------------------------------------------------------

/// The compressor's weights.
pub open spec fn compressor_of(
    t: Map<DsV4TensorKind, Seq<u32>>,
    hp: DsV4Hyperparams,
    compress_ratio: usize,
) -> CompressorModel {
    let n_kv = compressor_width(hp, compress_ratio);
    CompressorModel {
        wkv: grid_of(t[DsV4TensorKind::AttnCompressorKv], n_kv, hp.n_embd as nat),
        wgate: grid_of(t[DsV4TensorKind::AttnCompressorGate], n_kv, hp.n_embd as nat),
        ape: grid_of(t[DsV4TensorKind::AttnCompressorApe], compress_ratio as nat, n_kv),
        norm: t[DsV4TensorKind::AttnCompressorNorm],
    }
}

/// The indexer's weights.
pub open spec fn indexer_of(
    t: Map<DsV4TensorKind, Seq<u32>>,
    hp: DsV4Hyperparams,
    compress_ratio: usize,
    ihead: usize,
    inh: usize,
) -> IndexerModel {
    let n_kv = (2 * ihead) as nat;
    IndexerModel {
        compressor: CompressorModel {
            wkv: grid_of(t[DsV4TensorKind::IndexerCompressorKv], n_kv, hp.n_embd as nat),
            wgate: grid_of(t[DsV4TensorKind::IndexerCompressorGate], n_kv, hp.n_embd as nat),
            ape: grid_of(t[DsV4TensorKind::IndexerCompressorApe], compress_ratio as nat, n_kv),
            norm: t[DsV4TensorKind::IndexerCompressorNorm],
        },
        wq_b: grid_of(
            t[DsV4TensorKind::IndexerAttnQB],
            (inh * ihead) as nat,
            hp.q_lora_rank as nat,
        ),
        wproj: grid_of(t[DsV4TensorKind::IndexerProj], inh as nat, hp.n_embd as nat),
    }
}

/// The layer that the tensors make up. A layer with a ratio of zero has neither
/// compressor nor indexer; only a ratio of four has an indexer.
pub open spec fn storage_of(
    t: Map<DsV4TensorKind, Seq<u32>>,
    hp: DsV4Hyperparams,
    compress_ratio: usize,
) -> StorageModel {
    let indexed = compress_ratio == 4;
    let ihead = hp.indexer_head_size->Some_0;
    let inh = hp.n_index_head->Some_0;
    StorageModel {
        attn_norm: t[DsV4TensorKind::AttnNorm],
        wq_a: grid_of(t[DsV4TensorKind::AttnQA], hp.q_lora_rank as nat, hp.n_embd as nat),
        q_a_norm: t[DsV4TensorKind::AttnQANorm],
        wq_b: grid_of(
            t[DsV4TensorKind::AttnQB],
            (hp.n_head * hp.head_dim) as nat,
            hp.q_lora_rank as nat,
        ),
        wkv: grid_of(t[DsV4TensorKind::AttnKv], hp.head_dim as nat, hp.n_embd as nat),
        kv_a_norm: t[DsV4TensorKind::AttnKvANorm],
        attn_sinks: if t.contains_key(DsV4TensorKind::AttnSinks) {
            Some(t[DsV4TensorKind::AttnSinks])
        } else {
            None
        },
        wo_a: block_of(
            t[DsV4TensorKind::AttnOutA],
            hp.n_groups as nat,
            hp.o_lora_rank as nat,
            group_dim(hp),
        ),
        wo_b: grid_of(
            t[DsV4TensorKind::AttnOutB],
            hp.n_embd as nat,
            (hp.o_lora_rank * hp.n_groups) as nat,
        ),
        attn_params: hp.attn_params_spec(),
        compressor: if compress_ratio == 0 {
            None
        } else {
            Some(compressor_of(t, hp, compress_ratio))
        },
        compressor_params: if compress_ratio == 0 {
            None
        } else {
            Some(hp.compressor_params_spec(hp.head_dim, compress_ratio))
        },
        indexer: if indexed {
            Some(indexer_of(t, hp, compress_ratio, ihead, inh))
        } else {
            None
        },
        indexer_compressor_params: if indexed {
            Some(hp.compressor_params_spec(ihead, compress_ratio))
        } else {
            None
        },
        indexer_params: if indexed {
            Some(hp.indexer_params_spec(inh, ihead))
        } else {
            None
        },
        top_k: if indexed {
            hp.top_k
        } else {
            None
        },
    }
}

/// The first `k` of the needed tensors are there, in their shapes.
pub open spec fn first_there(
    t: Map<DsV4TensorKind, Seq<u32>>,
    needs: Seq<Needed>,
    k: int,
) -> bool {
    first_fault(t, needs.take(k)) is None
}

/// Every shape of the main tensors that is come to is one that an array can have,
/// and its axes are numbers: each where the tensors before it are there, and the
/// whole shape where the tensor itself is.
pub open spec fn main_shapes_allowed(
    t: Map<DsV4TensorKind, Seq<u32>>,
    hp: DsV4Hyperparams,
) -> bool {
    let n_embd = hp.n_embd as nat;
    let q_lora = hp.q_lora_rank as nat;
    let needs = main_needs(hp);
    &&& first_there(t, needs, 2) ==> matrix_indexable(q_lora, n_embd)
    &&& first_there(t, needs, 3) ==> hp.n_head * hp.head_dim <= usize::MAX
    &&& first_there(t, needs, 4) ==> matrix_indexable((hp.n_head * hp.head_dim) as nat, q_lora)
    &&& first_there(t, needs, 5) ==> matrix_indexable(hp.head_dim as nat, n_embd)
    &&& first_there(t, needs, 6) ==> {
        &&& hp.n_groups > 0
        &&& group_dim(hp) <= usize::MAX
        &&& hp.o_lora_rank * hp.n_groups <= usize::MAX
    }
    &&& first_there(t, needs, 7) ==> cube_indexable(
        hp.n_groups as nat,
        hp.o_lora_rank as nat,
        group_dim(hp),
    )
    &&& first_there(t, needs, 8) ==> matrix_indexable(n_embd, (hp.o_lora_rank * hp.n_groups) as nat)
}

/// Every shape of the indexer that is come to is one that an array can have, and
/// its axes are numbers.
pub open spec fn indexer_allowed(
    t: Map<DsV4TensorKind, Seq<u32>>,
    hp: DsV4Hyperparams,
    compress_ratio: usize,
    ihead: usize,
    inh: usize,
) -> bool {
    let n_embd = hp.n_embd as nat;
    let needs = indexer_needs(hp, compress_ratio, ihead, inh);
    &&& 2 * ihead <= usize::MAX
    &&& first_there(t, needs, 1) ==> matrix_indexable((2 * ihead) as nat, n_embd)
    &&& first_there(t, needs, 3) ==> matrix_indexable(compress_ratio as nat, (2 * ihead) as nat)
    &&& first_there(t, needs, 4) ==> inh * ihead <= usize::MAX
    &&& first_there(t, needs, 5) ==> matrix_indexable((inh * ihead) as nat, hp.q_lora_rank as nat)
    &&& first_there(t, needs, 6) ==> matrix_indexable(inh as nat, n_embd)
}

/// Every shape of the layer that is come to is one that an array can have: those
/// of the compressor where the main tensors are there, those of the indexer where
/// the compressor's are.
pub open spec fn shapes_allowed(
    t: Map<DsV4TensorKind, Seq<u32>>,
    hp: DsV4Hyperparams,
    compress_ratio: usize,
) -> bool {
    let n_embd = hp.n_embd as nat;
    let n_kv = compressor_width(hp, compress_ratio);
    let ihead = hp.indexer_head_size->Some_0;
    let inh = hp.n_index_head->Some_0;
    &&& main_shapes_allowed(t, hp)
    &&& compress_ratio != 0 && first_fault(t, main_needs(hp)) is None ==> {
        let needs = compressor_needs(hp, compress_ratio);
        &&& n_kv <= usize::MAX
        &&& first_there(t, needs, 1) ==> matrix_indexable(n_kv, n_embd)
        &&& first_there(t, needs, 3) ==> matrix_indexable(compress_ratio as nat, n_kv)
        &&& compress_ratio == 4 && has_indexer_hp(hp) && first_fault(t, needs) is None
            ==> indexer_allowed(t, hp, compress_ratio, ihead, inh)
    }
}

// ---- building --------------------------------------------------------------

/// A copy of the words of a kind, where their number is that of the shape.
fn take_vec(tensors: &LayerTensors, kind: DsV4TensorKind, expected: Vec<usize>) -> (r: Result<
    Vec<u32>,
    DsV4BuildError,
>)
    requires
        tensors.wf(),
    ensures
        match fault_of(tensors@, (kind, expected@)) {
            None => r is Ok && r->Ok_0@ == tensors@[kind],
            Some(f) => r is Err && r->Err_0@ == f,
        },
{
    match tensors.get(kind) {
        None => Err(DsV4BuildError::MissingTensor(kind)),
        Some(v) => {
            let got: usize = v.len();
            let fits: bool = match shape_product(&expected) {
                Some(want) => want == got,
                None => false,
            };
            if !fits {
                return Err(DsV4BuildError::ShapeMismatch { kind, expected, got_elems: got });
            }
            let words: Vec<u32> = vstd::slice::slice_to_vec(v.as_slice());
            assert(words@ =~= v@);
            Ok(words)
        },
    }
}

proof fn lemma_zero_axis(dims: Seq<usize>, k: int)
    requires
        0 <= k < dims.len(),
        dims[k] == 0,
    ensures
        shape_size(dims) == 0,
    decreases dims.len(),
{
    let a = shape_size(dims.drop_last());
    if k < dims.len() - 1 {
        lemma_zero_axis(dims.drop_last(), k);
        assert(0 * dims.last() as nat == 0);
    } else {
        assert(a * 0 == 0);
    }
}

proof fn lemma_size_grows(dims: Seq<usize>, k: int)
    requires
        0 <= k <= dims.len(),
        forall|i: int| 0 <= i < dims.len() ==> dims[i] > 0,
    ensures
        1 <= shape_size(dims.take(k)) <= shape_size(dims),
    decreases dims.len(),
{
    if k == dims.len() {
        assert(dims.take(k) =~= dims);
    }
    if dims.len() > 0 {
        let head = dims.drop_last();
        let a = shape_size(head);
        let b = dims.last() as nat;
        lemma_size_grows(head, head.len() as int);
        assert(head.take(head.len() as int) =~= head);
        assert(a <= a * b && 1 <= a * b) by (nonlinear_arith)
            requires
                a >= 1,
                b >= 1,
        ;
        if k < dims.len() {
            lemma_size_grows(head, k);
            assert(head.take(k) =~= dims.take(k));
        }
    }
}

/// The product of the axes; `None` where it is no size.
pub fn shape_product(dims: &Vec<usize>) -> (r: Option<usize>)
    ensures
        match r {
            Some(p) => p as nat == shape_size(dims@),
            None => shape_size(dims@) > usize::MAX,
        },
{
    let mut i: usize = 0;
    while i < dims.len()
        invariant
            i <= dims@.len(),
            forall|j: int| 0 <= j < i ==> dims@[j] > 0,
        decreases dims@.len() - i,
    {
        if dims[i] == 0 {
            proof {
                lemma_zero_axis(dims@, i as int);
            }
            return Some(0);
        }
        i += 1;
    }
    let mut p: usize = 1;
    let mut k: usize = 0;
    assert(dims@.take(0) =~= Seq::<usize>::empty());
    while k < dims.len()
        invariant
            k <= dims@.len(),
            forall|j: int| 0 <= j < dims@.len() ==> dims@[j] > 0,
            p as nat == shape_size(dims@.take(k as int)),
        decreases dims@.len() - k,
    {
        assert(dims@.take(k + 1).drop_last() =~= dims@.take(k as int));
        match p.checked_mul(dims[k]) {
            Some(q) => {
                p = q;
            },
            None => {
                proof {
                    lemma_size_grows(dims@, k + 1);
                }
                return None;
            },
        }
        k += 1;
    }
    assert(dims@.take(k as int) =~= dims@);
    Some(p)
}

proof fn lemma_size_1(a: usize)
    ensures
        shape_size(seq![a]) == a,
{
    let none = seq![a].drop_last();
    assert(none =~= Seq::<usize>::empty());
    assert(shape_size(none) == 1);
    assert(seq![a].last() == a);
    assert(1 * (a as nat) == a as nat);
}

proof fn lemma_size_2(a: usize, b: usize)
    ensures
        shape_size(seq![a, b]) == a * b,
{
    lemma_size_1(a);
    assert(seq![a, b].drop_last() =~= seq![a]);
}

proof fn lemma_size_3(a: usize, b: usize, c: usize)
    ensures
        shape_size(seq![a, b, c]) == a * b * c,
{
    lemma_size_2(a, b);
    assert(seq![a, b, c].drop_last() =~= seq![a, b]);
}

fn take_1d(tensors: &LayerTensors, kind: DsV4TensorKind, dim0: usize) -> (r: Result<
    Vec<u32>,
    DsV4BuildError,
>)
    requires
        tensors.wf(),
    ensures
        match fault_of(tensors@, (kind, seq![dim0])) {
            None => r is Ok && r->Ok_0@ == tensors@[kind],
            Some(f) => r is Err && r->Err_0@ == f,
        },
{
    let mut dims: Vec<usize> = Vec::new();
    dims.push(dim0);
    assert(dims@ =~= seq![dim0]);
    take_vec(tensors, kind, dims)
}

fn take_2d(tensors: &LayerTensors, kind: DsV4TensorKind, dim0: usize, dim1: usize) -> (r: Result<
    Matrix,
    DsV4BuildError,
>)
    requires
        tensors.wf(),
        fault_of(tensors@, (kind, seq![dim0, dim1])) is None ==> matrix_indexable(
            dim0 as nat,
            dim1 as nat,
        ),
    ensures
        match fault_of(tensors@, (kind, seq![dim0, dim1])) {
            None => r is Ok && r->Ok_0.grid() == grid_of(tensors@[kind], dim0 as nat, dim1 as nat),
            Some(f) => r is Err && r->Err_0@ == f,
        },
{
    let mut dims: Vec<usize> = Vec::new();
    dims.push(dim0);
    dims.push(dim1);
    assert(dims@ =~= seq![dim0, dim1]);
    proof {
        lemma_size_2(dim0, dim1);
    }
    match take_vec(tensors, kind, dims) {
        Ok(words) => Ok(Matrix::from_flat(dim0, dim1, words).unwrap()),
        Err(e) => Err(e),
    }
}

fn take_3d(
    tensors: &LayerTensors,
    kind: DsV4TensorKind,
    dim0: usize,
    dim1: usize,
    dim2: usize,
) -> (r: Result<Cube, DsV4BuildError>)
    requires
        tensors.wf(),
        fault_of(tensors@, (kind, seq![dim0, dim1, dim2])) is None ==> cube_indexable(
            dim0 as nat,
            dim1 as nat,
            dim2 as nat,
        ),
    ensures
        match fault_of(tensors@, (kind, seq![dim0, dim1, dim2])) {
            None => r is Ok && r->Ok_0.block() == block_of(
                tensors@[kind],
                dim0 as nat,
                dim1 as nat,
                dim2 as nat,
            ),
            Some(f) => r is Err && r->Err_0@ == f,
        },
{
    let mut dims: Vec<usize> = Vec::new();
    dims.push(dim0);
    dims.push(dim1);
    dims.push(dim2);
    assert(dims@ =~= seq![dim0, dim1, dim2]);
    proof {
        lemma_size_3(dim0, dim1, dim2);
    }
    match take_vec(tensors, kind, dims) {
        Ok(words) => Ok(Cube::from_flat(dim0, dim1, dim2, words).unwrap()),
        Err(e) => Err(e),
    }
}

/// The first fault of a list with one more need.
proof fn lemma_first_fault_push(t: Map<DsV4TensorKind, Seq<u32>>, needs: Seq<Needed>, k: int)
    requires
        0 <= k < needs.len(),
    ensures
        first_fault(t, needs.take(k + 1)) == (match first_fault(t, needs.take(k)) {
            Some(f) => Some(f),
            None => fault_of(t, needs[k]),
        }),
{
    assert(needs.take(k + 1).drop_last() =~= needs.take(k));
}

/// A fault at one place of the list, with none before it, is the first fault.
proof fn lemma_first_fault_at(
    t: Map<DsV4TensorKind, Seq<u32>>,
    needs: Seq<Needed>,
    k: int,
    n: int,
)
    requires
        0 <= k < n <= needs.len(),
        first_fault(t, needs.take(k)) is None,
        fault_of(t, needs[k]) is Some,
    ensures
        first_fault(t, needs.take(n)) == fault_of(t, needs[k]),
    decreases n - k,
{
    lemma_first_fault_push(t, needs, k);
    if n > k + 1 {
        lemma_first_fault_at(t, needs, k, n - 1);
        lemma_first_fault_push(t, needs, n - 1);
    }
}

/// The next of the needed tensors: one more is there, or its fault is the first.
proof fn lemma_next_need(t: Map<DsV4TensorKind, Seq<u32>>, needs: Seq<Needed>, k: int)
    requires
        0 <= k < needs.len(),
        first_there(t, needs, k),
    ensures
        fault_of(t, needs[k]) is None ==> first_there(t, needs, k + 1),
        fault_of(t, needs[k]) is Some ==> first_fault(t, needs) == fault_of(t, needs[k]),
{
    lemma_first_fault_push(t, needs, k);
    if fault_of(t, needs[k]) is Some {
        lemma_first_fault_at(t, needs, k, needs.len() as int);
        assert(needs.take(needs.len() as int) =~= needs);
    }
}

/// The tensors of a compressor, by their kinds.
spec fn compressor_list(
    kinds: (DsV4TensorKind, DsV4TensorKind, DsV4TensorKind, DsV4TensorKind),
    n_kv: usize,
    n_embd: usize,
    compress_ratio: usize,
    head_dim: usize,
) -> Seq<Needed> {
    seq![
        (kinds.0, seq![n_kv, n_embd]),
        (kinds.1, seq![n_kv, n_embd]),
        (kinds.2, seq![compress_ratio, n_kv]),
        (kinds.3, seq![head_dim]),
    ]
}

/// The four weights of a compressor.
fn build_compressor(
    tensors: &LayerTensors,
    kinds: (DsV4TensorKind, DsV4TensorKind, DsV4TensorKind, DsV4TensorKind),
    n_kv: usize,
    n_embd: usize,
    compress_ratio: usize,
    head_dim: usize,
) -> (r: Result<CompressorStorage, DsV4BuildError>)
    requires
        tensors.wf(),
        ({
            let needs = compressor_list(kinds, n_kv, n_embd, compress_ratio, head_dim);
            &&& first_there(tensors@, needs, 1) ==> matrix_indexable(n_kv as nat, n_embd as nat)
            &&& first_there(tensors@, needs, 3) ==> matrix_indexable(
                compress_ratio as nat,
                n_kv as nat,
            )
        }),
    ensures
        match first_fault(
            tensors@,
            compressor_list(kinds, n_kv, n_embd, compress_ratio, head_dim),
        ) {
            None => r is Ok && r->Ok_0@ == (CompressorModel {
                wkv: grid_of(tensors@[kinds.0], n_kv as nat, n_embd as nat),
                wgate: grid_of(tensors@[kinds.1], n_kv as nat, n_embd as nat),
                ape: grid_of(tensors@[kinds.2], compress_ratio as nat, n_kv as nat),
                norm: tensors@[kinds.3],
            }),
            Some(f) => r is Err && r->Err_0@ == f,
        },
{
    let ghost needs = compressor_list(kinds, n_kv, n_embd, compress_ratio, head_dim);
    let ghost t = tensors@;
    proof {
        assert(needs.take(0) =~= Seq::<Needed>::empty());
        lemma_next_need(t, needs, 0);
    }
    let wkv: Matrix = match take_2d(tensors, kinds.0, n_kv, n_embd) {
        Ok(m) => m,
        Err(e) => return Err(e),
    };
    proof {
        lemma_next_need(t, needs, 1);
    }
    let wgate: Matrix = match take_2d(tensors, kinds.1, n_kv, n_embd) {
        Ok(m) => m,
        Err(e) => return Err(e),
    };
    proof {
        lemma_next_need(t, needs, 2);
    }
    let ape: Matrix = match take_2d(tensors, kinds.2, compress_ratio, n_kv) {
        Ok(m) => m,
        Err(e) => return Err(e),
    };
    proof {
        lemma_next_need(t, needs, 3);
    }
    let norm: Vec<u32> = match take_1d(tensors, kinds.3, head_dim) {
        Ok(v) => v,
        Err(e) => return Err(e),
    };
    assert(needs.take(4) =~= needs);
    Ok(CompressorStorage { wkv, wgate, ape, norm })
}

/// The main attention weights of a layer, with nothing beside them.
fn build_main(tensors: &LayerTensors, hp: &DsV4Hyperparams) -> (r: Result<
    DsV4LayerWeightStorage,
    DsV4BuildError,
>)
    requires
        tensors.wf(),
        main_shapes_allowed(tensors@, *hp),
    ensures
        match first_fault(tensors@, main_needs(*hp)) {
            None => r is Ok && r->Ok_0@ == storage_of(tensors@, *hp, 0),
            Some(f) => r is Err && r->Err_0@ == f,
        },
{
    let ghost needs = main_needs(*hp);
    let ghost t = tensors@;
    proof {
        assert(needs.take(0) =~= Seq::<Needed>::empty());
        lemma_next_need(t, needs, 0);
    }
    let attn_norm: Vec<u32> = match take_1d(tensors, DsV4TensorKind::AttnNorm, hp.n_embd) {
        Ok(v) => v,
        Err(e) => return Err(e),
    };
    proof {
        lemma_next_need(t, needs, 1);
    }
    let wq_a: Matrix = match take_2d(tensors, DsV4TensorKind::AttnQA, hp.q_lora_rank, hp.n_embd) {
        Ok(m) => m,
        Err(e) => return Err(e),
    };
    proof {
        lemma_next_need(t, needs, 2);
    }
    let q_a_norm: Vec<u32> = match take_1d(tensors, DsV4TensorKind::AttnQANorm, hp.q_lora_rank) {
        Ok(v) => v,
        Err(e) => return Err(e),
    };
    proof {
        lemma_next_need(t, needs, 3);
    }
    let wq_b: Matrix = match take_2d(
        tensors,
        DsV4TensorKind::AttnQB,
        hp.n_head * hp.head_dim,
        hp.q_lora_rank,
    ) {
        Ok(m) => m,
        Err(e) => return Err(e),
    };
    proof {
        lemma_next_need(t, needs, 4);
    }
    let wkv: Matrix = match take_2d(tensors, DsV4TensorKind::AttnKv, hp.head_dim, hp.n_embd) {
        Ok(m) => m,
        Err(e) => return Err(e),
    };
    proof {
        lemma_next_need(t, needs, 5);
    }
    let kv_a_norm: Vec<u32> = match take_1d(tensors, DsV4TensorKind::AttnKvANorm, hp.head_dim) {
        Ok(v) => v,
        Err(e) => return Err(e),
    };
    let attn_sinks: Option<Vec<u32>> = match tensors.get(DsV4TensorKind::AttnSinks) {
        Some(v) => {
            let words: Vec<u32> = vstd::slice::slice_to_vec(v.as_slice());
            assert(words@ =~= v@);
            Some(words)
        },
        None => None,
    };
    proof {
        lemma_next_need(t, needs, 6);
    }
    let group_heads: usize = hp.n_head / hp.n_groups;
    let width: usize = hp.head_dim * group_heads;
    let wo_a: Cube = match take_3d(
        tensors,
        DsV4TensorKind::AttnOutA,
        hp.n_groups,
        hp.o_lora_rank,
        width,
    ) {
        Ok(c) => c,
        Err(e) => return Err(e),
    };
    proof {
        lemma_next_need(t, needs, 7);
    }
    let low_dim: usize = hp.o_lora_rank * hp.n_groups;
    let wo_b: Matrix = match take_2d(tensors, DsV4TensorKind::AttnOutB, hp.n_embd, low_dim) {
        Ok(m) => m,
        Err(e) => return Err(e),
    };
    assert(needs.take(8) =~= needs);
    Ok(
        DsV4LayerWeightStorage {
            attn_norm,
            wq_a,
            q_a_norm,
            wq_b,
            wkv,
            kv_a_norm,
            attn_sinks,
            wo_a,
            wo_b,
            attn_params: hp.attn_params(),
            compressor: None,
            compressor_params: None,
            indexer: None,
            indexer_compressor_params: None,
            indexer_params: None,
            top_k: None,
        },
    )
}

/// The indexer of a layer.
fn build_indexer(
    tensors: &LayerTensors,
    hp: &DsV4Hyperparams,
    compress_ratio: usize,
    ihead: usize,
    inh: usize,
) -> (r: Result<IndexerStorage, DsV4BuildError>)
    requires
        tensors.wf(),
        indexer_allowed(tensors@, *hp, compress_ratio, ihead, inh),
    ensures
        match first_fault(tensors@, indexer_needs(*hp, compress_ratio, ihead, inh)) {
            None => r is Ok && r->Ok_0@ == indexer_of(tensors@, *hp, compress_ratio, ihead, inh),
            Some(f) => r is Err && r->Err_0@ == f,
        },
{
    let ghost needs = indexer_needs(*hp, compress_ratio, ihead, inh);
    let ghost t = tensors@;
    let n_kv: usize = 2 * ihead;
    let kinds = (
        DsV4TensorKind::IndexerCompressorKv,
        DsV4TensorKind::IndexerCompressorGate,
        DsV4TensorKind::IndexerCompressorApe,
        DsV4TensorKind::IndexerCompressorNorm,
    );
    proof {
        let four = compressor_list(kinds, n_kv, hp.n_embd, compress_ratio, ihead);
        assert(needs.take(4) =~= four);
        assert(four.take(1) =~= needs.take(1));
        assert(four.take(3) =~= needs.take(3));
        assert(needs.take(6) =~= needs);
        lemma_first_fault_push(t, needs, 4);
        lemma_first_fault_push(t, needs, 5);
    }
    let compressor: CompressorStorage = match build_compressor(
        tensors,
        kinds,
        n_kv,
        hp.n_embd,
        compress_ratio,
        ihead,
    ) {
        Ok(c) => c,
        Err(e) => return Err(e),
    };
    let wq_b: Matrix = match take_2d(
        tensors,
        DsV4TensorKind::IndexerAttnQB,
        inh * ihead,
        hp.q_lora_rank,
    ) {
        Ok(m) => m,
        Err(e) => return Err(e),
    };
    let wproj: Matrix = match take_2d(tensors, DsV4TensorKind::IndexerProj, inh, hp.n_embd) {
        Ok(m) => m,
        Err(e) => return Err(e),
    };
    Ok(IndexerStorage { compressor, wq_b, wproj })
}

/// Shapes one layer's tensors. A ratio of zero makes a layer without
/// compressor, four one with an indexer, any other one with a compressor only.
pub fn build_layer_storage(
    tensors: &LayerTensors,
    hp: &DsV4Hyperparams,
    compress_ratio: usize,
) -> (r: Result<DsV4LayerWeightStorage, DsV4BuildError>)
    requires
        tensors.wf(),
        shapes_allowed(tensors@, *hp, compress_ratio),
    ensures
        match build_fault(tensors@, *hp, compress_ratio) {
            None => r is Ok && r->Ok_0@ == storage_of(tensors@, *hp, compress_ratio),
            Some(f) => r is Err && r->Err_0@ == f,
        },
{
    let mut storage: DsV4LayerWeightStorage = match build_main(tensors, hp) {
        Ok(s) => s,
        Err(e) => return Err(e),
    };
    if compress_ratio == 0 {
        return Ok(storage);
    }
    let coff: usize = if compress_ratio == 4 {
        2
    } else {
        1
    };
    let n_kv: usize = coff * hp.head_dim;
    let compressor: CompressorStorage = match build_compressor(
        tensors,
        (
            DsV4TensorKind::AttnCompressorKv,
            DsV4TensorKind::AttnCompressorGate,
            DsV4TensorKind::AttnCompressorApe,
            DsV4TensorKind::AttnCompressorNorm,
        ),
        n_kv,
        hp.n_embd,
        compress_ratio,
        hp.head_dim,
    ) {
        Ok(c) => c,
        Err(e) => return Err(e),
    };
    storage.compressor = Some(compressor);
    storage.compressor_params = Some(hp.compressor_params(hp.head_dim, compress_ratio));
    if compress_ratio != 4 {
        return Ok(storage);
    }
    let ihead: usize = match hp.indexer_head_size {
        Some(n) => n,
        None => return Err(DsV4BuildError::MissingIndexerHyperparams),
    };
    let inh: usize = match hp.n_index_head {
        Some(n) => n,
        None => return Err(DsV4BuildError::MissingIndexerHyperparams),
    };
    let topk: usize = match hp.top_k {
        Some(n) => n,
        None => return Err(DsV4BuildError::MissingIndexerHyperparams),
    };
    let indexer: IndexerStorage = match build_indexer(tensors, hp, compress_ratio, ihead, inh) {
        Ok(i) => i,
        Err(e) => return Err(e),
    };
    storage.indexer = Some(indexer);
    storage.indexer_compressor_params = Some(hp.compressor_params(ihead, compress_ratio));
    storage.indexer_params = Some(
        IndexerParams {
            n_embd: hp.n_embd,
            q_lora_rank: hp.q_lora_rank,
            n_index_head: inh,
            n_index_head_size: ihead,
            n_rot: hp.n_rot,
            rope_base: hp.rope_base,
            rope_mode: hp.rope_mode,
        },
    );
    storage.top_k = Some(topk);
    Ok(storage)
}

/// A tensor that the layer does not need changes nothing: two tables that agree
/// on what the layer needs build the same layer.
pub proof fn law_only_needed_tensors_count(
    a: Map<DsV4TensorKind, Seq<u32>>,
    b: Map<DsV4TensorKind, Seq<u32>>,
    needs: Seq<Needed>,
)
    requires
        forall|i: int|
            0 <= i < needs.len() ==> {
                let kind = (#[trigger] needs[i]).0;
                a.contains_key(kind) == b.contains_key(kind) && (a.contains_key(kind) ==> a[kind]
                    == b[kind])
            },
    ensures
        first_fault(a, needs) == first_fault(b, needs),
    decreases needs.len(),
{
    if needs.len() > 0 {
        assert forall|i: int| 0 <= i < needs.drop_last().len() implies {
            let kind = (#[trigger] needs.drop_last()[i]).0;
            a.contains_key(kind) == b.contains_key(kind) && (a.contains_key(kind) ==> a[kind]
                == b[kind])
        } by {
            assert(needs.drop_last()[i] == needs[i]);
        }
        law_only_needed_tensors_count(a, b, needs.drop_last());
        assert(needs.last() == needs[needs.len() - 1]);
    }
}

/// Where no fault is found, every needed tensor is in the table and has as many
/// elements as its shape.
pub proof fn law_built_layer_has_every_tensor(
    t: Map<DsV4TensorKind, Seq<u32>>,
    needs: Seq<Needed>,
    i: int,
)
    requires
        first_fault(t, needs) is None,
        0 <= i < needs.len(),
    ensures
        t.contains_key(needs[i].0),
        t[needs[i].0].len() == shape_size(needs[i].1),
    decreases needs.len(),
{
    if i < needs.len() - 1 {
        law_built_layer_has_every_tensor(t, needs.drop_last(), i);
        assert(needs.drop_last()[i] == needs[i]);
    }
}

/// How many words a tensor of some dimensions has: their product.
pub proof fn law_shape_is_a_product(dims: Seq<usize>, a: usize, b: usize, c: usize)
    ensures
        shape_size(Seq::<usize>::empty()) == 1,
        shape_size(dims.push(a)) == shape_size(dims) * a,
        shape_size(seq![a]) == a,
        shape_size(seq![a, b]) == a * b,
        shape_size(seq![a, b, c]) == a * b * c,
{
    reveal_with_fuel(shape_size, 4);
    assert(dims.push(a).drop_last() =~= dims);
    assert(seq![a].drop_last() =~= Seq::<usize>::empty());
    assert(seq![a, b].drop_last() =~= seq![a]);
    assert(seq![a, b, c].drop_last() =~= seq![a, b]);
}

/// What is wrong with a tensor that a layer needs: it is missing, or it has another
/// number of words than its shape; and nothing where it is there with as many.
pub proof fn law_fault_of_a_tensor(t: Map<DsV4TensorKind, Seq<u32>>, need: Needed)
    ensures
        fault_of(t, need) is None <==> t.contains_key(need.0) && t[need.0].len() == shape_size(
            need.1,
        ),
        !t.contains_key(need.0) ==> fault_of(t, need) == Some(BuildFault::MissingTensor(need.0)),
        t.contains_key(need.0) && t[need.0].len() != shape_size(need.1) ==> fault_of(t, need)
            == Some(
            BuildFault::ShapeMismatch {
                kind: need.0,
                expected: need.1,
                got_elems: t[need.0].len(),
            },
        ),
{
}

/// The fault of some needs is that of the first one that is not met.
pub proof fn law_first_fault_comes_first(t: Map<DsV4TensorKind, Seq<u32>>, needs: Seq<Needed>)
    ensures
        match first_fault(t, needs) {
            None => forall|i: int|
                0 <= i < needs.len() ==> fault_of(t, #[trigger] needs[i]) is None,
            Some(f) => exists|k: int|
                {
                    &&& 0 <= k < needs.len()
                    &&& fault_of(t, #[trigger] needs[k]) == Some(f)
                    &&& forall|i: int| 0 <= i < k ==> fault_of(t, #[trigger] needs[i]) is None
                },
        },
    decreases needs.len(),
{
    if needs.len() > 0 {
        let front = needs.drop_last();
        law_first_fault_comes_first(t, front);
        match first_fault(t, front) {
            None => {
                assert forall|i: int| 0 <= i < needs.len() - 1 implies fault_of(
                    t,
                    #[trigger] needs[i],
                ) is None by {
                    assert(front[i] == needs[i]);
                }
                assert(needs[needs.len() - 1] == needs.last());
            },
            Some(f) => {
                let k = choose|k: int|
                    {
                        &&& 0 <= k < front.len()
                        &&& fault_of(t, #[trigger] front[k]) == Some(f)
                        &&& forall|i: int|
                            0 <= i < k ==> fault_of(t, #[trigger] front[i]) is None
                    };
                assert(needs[k] == front[k]);
                assert forall|i: int| 0 <= i < k implies fault_of(
                    t,
                    #[trigger] needs[i],
                ) is None by {
                    assert(front[i] == needs[i]);
                }
            },
        }
    }
}

/// A tensor is there, with as many words.
pub open spec fn has_words(t: Map<DsV4TensorKind, Seq<u32>>, kind: DsV4TensorKind, n: int) -> bool {
    t.contains_key(kind) && t[kind].len() == n
}

/// The attention tensors that every layer needs are there, with as many words as the
/// model's sizes call for.
pub open spec fn main_tensors_there(t: Map<DsV4TensorKind, Seq<u32>>, hp: DsV4Hyperparams) -> bool {
    &&& has_words(t, DsV4TensorKind::AttnNorm, hp.n_embd as int)
    &&& has_words(t, DsV4TensorKind::AttnQA, hp.q_lora_rank * hp.n_embd)
    &&& has_words(t, DsV4TensorKind::AttnQANorm, hp.q_lora_rank as int)
    &&& has_words(t, DsV4TensorKind::AttnQB, hp.n_head * hp.head_dim * hp.q_lora_rank)
    &&& has_words(t, DsV4TensorKind::AttnKv, hp.head_dim * hp.n_embd)
    &&& has_words(t, DsV4TensorKind::AttnKvANorm, hp.head_dim as int)
    &&& has_words(
        t,
        DsV4TensorKind::AttnOutA,
        hp.n_groups * hp.o_lora_rank * (hp.head_dim * (hp.n_head as int / hp.n_groups as int)),
    )
    &&& has_words(t, DsV4TensorKind::AttnOutB, hp.n_embd * (hp.o_lora_rank * hp.n_groups))
}

proof fn lemma_one_dim(a: usize)
    ensures
        shape_size(seq![a]) == a,
{
    law_shape_is_a_product(Seq::empty(), a, a, a);
}

proof fn lemma_two_dims(a: usize, b: usize)
    ensures
        shape_size(seq![a, b]) == a * b,
{
    law_shape_is_a_product(Seq::empty(), a, b, a);
}

/// A layer without a compressor is built where the attention tensors are there with
/// the words that the sizes call for, and nowhere else; a compressor with its own
/// tensors comes on top where the layer compresses, and an indexer's where it
/// compresses by four.
pub proof fn law_layer_builds_where_its_tensors_fit(
    t: Map<DsV4TensorKind, Seq<u32>>,
    hp: DsV4Hyperparams,
)
    requires
        hp.n_groups > 0,
        hp.n_head * hp.head_dim <= usize::MAX,
        hp.head_dim * (hp.n_head as int / hp.n_groups as int) <= usize::MAX,
        hp.o_lora_rank * hp.n_groups <= usize::MAX,
    ensures
        build_fault(t, hp, 0) is None <==> main_tensors_there(t, hp),
{
    let needs = main_needs(hp);
    law_first_fault_comes_first(t, needs);
    lemma_one_dim(hp.n_embd);
    lemma_one_dim(hp.q_lora_rank);
    lemma_one_dim(hp.head_dim);
    lemma_two_dims(hp.q_lora_rank, hp.n_embd);
    let q = (hp.n_head * hp.head_dim) as usize;
    lemma_two_dims(q, hp.q_lora_rank);
    lemma_two_dims(hp.head_dim, hp.n_embd);
    let o = (hp.o_lora_rank * hp.n_groups) as usize;
    lemma_two_dims(hp.n_embd, o);
    let g = group_dim(hp) as usize;
    assert(0 <= hp.head_dim * (hp.n_head as int / hp.n_groups as int)) by (nonlinear_arith)
        requires
            hp.n_groups > 0,
    ;
    assert(g == hp.head_dim * (hp.n_head as int / hp.n_groups as int));
    law_shape_is_a_product(Seq::empty(), hp.n_groups, hp.o_lora_rank, g);
    if build_fault(t, hp, 0) is None {
        assert(fault_of(t, needs[0]) is None);
        assert(fault_of(t, needs[1]) is None);
        assert(fault_of(t, needs[2]) is None);
        assert(fault_of(t, needs[3]) is None);
        assert(fault_of(t, needs[4]) is None);
        assert(fault_of(t, needs[5]) is None);
        assert(fault_of(t, needs[6]) is None);
        assert(fault_of(t, needs[7]) is None);
    }
}

/// What a compressor and an indexer need on top, with the words that the sizes call
/// for.
pub open spec fn compressor_tensors_there(
    t: Map<DsV4TensorKind, Seq<u32>>,
    hp: DsV4Hyperparams,
    ratio: usize,
) -> bool {
    let width = if ratio == 4 {
        2 * hp.head_dim
    } else {
        hp.head_dim as int
    };
    &&& has_words(t, DsV4TensorKind::AttnCompressorKv, width * hp.n_embd)
    &&& has_words(t, DsV4TensorKind::AttnCompressorGate, width * hp.n_embd)
    &&& has_words(t, DsV4TensorKind::AttnCompressorApe, ratio * width)
    &&& has_words(t, DsV4TensorKind::AttnCompressorNorm, hp.head_dim as int)
}

/// What an indexer of some heads of a size needs, with the words that the sizes call
/// for.
pub open spec fn indexer_tensors_there(
    t: Map<DsV4TensorKind, Seq<u32>>,
    hp: DsV4Hyperparams,
    size: usize,
    heads: usize,
) -> bool {
    &&& has_words(t, DsV4TensorKind::IndexerCompressorKv, 2 * size * hp.n_embd)
    &&& has_words(t, DsV4TensorKind::IndexerCompressorGate, 2 * size * hp.n_embd)
    &&& has_words(t, DsV4TensorKind::IndexerCompressorApe, 4 * (2 * size))
    &&& has_words(t, DsV4TensorKind::IndexerCompressorNorm, size as int)
    &&& has_words(t, DsV4TensorKind::IndexerAttnQB, heads * size * hp.q_lora_rank)
    &&& has_words(t, DsV4TensorKind::IndexerProj, heads * hp.n_embd)
}

/// A layer that compresses is built where a plain layer is and its compressor's
/// tensors fit too; one that compresses by four also needs the indexer's sizes and
/// tensors.
pub proof fn law_compressing_layer_builds_where_its_tensors_fit(
    t: Map<DsV4TensorKind, Seq<u32>>,
    hp: DsV4Hyperparams,
    ratio: usize,
)
    requires
        ratio > 0,
        2 * hp.head_dim <= usize::MAX,
        hp.indexer_head_size matches Some(size) ==> 2 * size <= usize::MAX && (hp.n_index_head matches
            Some(heads) ==> heads * size <= usize::MAX),
    ensures
        build_fault(t, hp, ratio) is None <==> {
            &&& build_fault(t, hp, 0) is None
            &&& compressor_tensors_there(t, hp, ratio)
            &&& ratio == 4 ==> {
                &&& hp.indexer_head_size is Some && hp.n_index_head is Some && hp.top_k is Some
                &&& indexer_tensors_there(
                    t,
                    hp,
                    hp.indexer_head_size->Some_0,
                    hp.n_index_head->Some_0,
                )
            }
        },
{
    let needs = compressor_needs(hp, ratio);
    law_first_fault_comes_first(t, needs);
    let n_kv = compressor_width(hp, ratio) as usize;
    lemma_two_dims(n_kv, hp.n_embd);
    lemma_two_dims(ratio, n_kv);
    lemma_one_dim(hp.head_dim);
    if first_fault(t, needs) is None {
        assert(fault_of(t, needs[0]) is None);
        assert(fault_of(t, needs[1]) is None);
        assert(fault_of(t, needs[2]) is None);
        assert(fault_of(t, needs[3]) is None);
    }
    assert(first_fault(t, needs) is None <==> compressor_tensors_there(t, hp, ratio));
    if ratio == 4 && has_indexer_hp(hp) {
        let size = hp.indexer_head_size->Some_0;
        let heads = hp.n_index_head->Some_0;
        let more = indexer_needs(hp, ratio, size, heads);
        law_first_fault_comes_first(t, more);
        let w = (2 * size) as usize;
        let q = (heads * size) as usize;
        lemma_two_dims(w, hp.n_embd);
        lemma_two_dims(ratio, w);
        lemma_one_dim(size);
        lemma_two_dims(q, hp.q_lora_rank);
        lemma_two_dims(heads, hp.n_embd);
        if first_fault(t, more) is None {
            assert(fault_of(t, more[0]) is None);
            assert(fault_of(t, more[1]) is None);
            assert(fault_of(t, more[2]) is None);
            assert(fault_of(t, more[3]) is None);
            assert(fault_of(t, more[4]) is None);
            assert(fault_of(t, more[5]) is None);
        }
        assert(first_fault(t, more) is None <==> indexer_tensors_there(t, hp, size, heads));
    }
}

/// Where the words of a layer's tensors stand once the layer is built: every matrix
/// holds its own tensor row by row.
pub proof fn law_built_words(
    t: Map<DsV4TensorKind, Seq<u32>>,
    hp: DsV4Hyperparams,
    ratio: usize,
    r: int,
    c: int,
)
    requires
        0 <= r,
        0 <= c,
    ensures
        ({
            let s = storage_of(t, hp, ratio);
            let n = hp.n_embd as int;
            let q = hp.q_lora_rank as int;
            &&& s.attn_norm == t[DsV4TensorKind::AttnNorm]
            &&& s.q_a_norm == t[DsV4TensorKind::AttnQANorm]
            &&& s.kv_a_norm == t[DsV4TensorKind::AttnKvANorm]
            &&& s.attn_sinks is Some <==> t.contains_key(DsV4TensorKind::AttnSinks)
            &&& s.attn_sinks matches Some(w) ==> w == t[DsV4TensorKind::AttnSinks]
            &&& r < q && c < n ==> s.wq_a.rows[r][c] == t[DsV4TensorKind::AttnQA][r * n + c]
            &&& r < hp.n_head * hp.head_dim && c < q ==> s.wq_b.rows[r][c]
                == t[DsV4TensorKind::AttnQB][r * q + c]
            &&& r < hp.head_dim && c < n ==> s.wkv.rows[r][c] == t[DsV4TensorKind::AttnKv][r * n
                + c]
            &&& r < n && c < hp.o_lora_rank * hp.n_groups ==> s.wo_b.rows[r][c]
                == t[DsV4TensorKind::AttnOutB][r * (hp.o_lora_rank * hp.n_groups) + c]
        }),
{
}

/// Where the words of a layer's grouped output projection stand: group by group, and
/// in each row by row.
pub proof fn law_built_group_words(
    t: Map<DsV4TensorKind, Seq<u32>>,
    hp: DsV4Hyperparams,
    ratio: usize,
    g: int,
    r: int,
    c: int,
)
    requires
        hp.n_groups > 0,
        0 <= g < hp.n_groups,
        0 <= r < hp.o_lora_rank,
        0 <= c < hp.head_dim * (hp.n_head as int / hp.n_groups as int),
    ensures
        storage_of(t, hp, ratio).wo_a.planes[g][r][c] == t[DsV4TensorKind::AttnOutA][(g
            * hp.o_lora_rank + r) * (hp.head_dim * (hp.n_head as int / hp.n_groups as int)) + c],
{
}

/// Where the words of a compressor and of an indexer stand, and which layers have
/// one: a compressor where the layer compresses, an indexer where it does by four.
pub proof fn law_built_compressor_words(
    t: Map<DsV4TensorKind, Seq<u32>>,
    hp: DsV4Hyperparams,
    ratio: usize,
    r: int,
    c: int,
)
    requires
        0 <= r,
        0 <= c,
    ensures
        ({
            let s = storage_of(t, hp, ratio);
            let n = hp.n_embd as int;
            let width = if ratio == 4 {
                2 * hp.head_dim
            } else {
                hp.head_dim as int
            };
            let size = hp.indexer_head_size->Some_0 as int;
            let heads = hp.n_index_head->Some_0 as int;
            &&& s.compressor is Some <==> ratio != 0
            &&& s.compressor_params is Some <==> ratio != 0
            &&& s.indexer is Some <==> ratio == 4
            &&& s.indexer_compressor_params is Some <==> ratio == 4
            &&& s.indexer_params is Some <==> ratio == 4
            &&& s.compressor_params matches Some(p) ==> p.head_dim == hp.head_dim
                && p.compress_ratio == ratio
            &&& s.indexer_compressor_params matches Some(p) ==> p.head_dim == size
                && p.compress_ratio == ratio
            &&& s.indexer_params matches Some(p) ==> p.n_index_head == heads
                && p.n_index_head_size == size
            &&& s.top_k == (if ratio == 4 {
                hp.top_k
            } else {
                None
            })
            &&& s.compressor matches Some(k) ==> {
                &&& r < width && c < n ==> k.wkv.rows[r][c] == t[DsV4TensorKind::AttnCompressorKv][r
                    * n + c]
                &&& r < width && c < n ==> k.wgate.rows[r][c]
                    == t[DsV4TensorKind::AttnCompressorGate][r * n + c]
                &&& r < ratio && c < width ==> k.ape.rows[r][c]
                    == t[DsV4TensorKind::AttnCompressorApe][r * width + c]
                &&& k.norm == t[DsV4TensorKind::AttnCompressorNorm]
            }
            &&& s.indexer matches Some(x) ==> {
                &&& r < 2 * size && c < n ==> x.compressor.wkv.rows[r][c]
                    == t[DsV4TensorKind::IndexerCompressorKv][r * n + c]
                &&& r < 2 * size && c < n ==> x.compressor.wgate.rows[r][c]
                    == t[DsV4TensorKind::IndexerCompressorGate][r * n + c]
                &&& r < 4 && c < 2 * size ==> x.compressor.ape.rows[r][c]
                    == t[DsV4TensorKind::IndexerCompressorApe][r * (2 * size) + c]
                &&& x.compressor.norm == t[DsV4TensorKind::IndexerCompressorNorm]
                &&& r < heads * size && c < hp.q_lora_rank ==> x.wq_b.rows[r][c]
                    == t[DsV4TensorKind::IndexerAttnQB][r * hp.q_lora_rank + c]
                &&& r < heads && c < n ==> x.wproj.rows[r][c] == t[DsV4TensorKind::IndexerProj][r * n
                    + c]
            }
        }),
{
}

/// The configurations that come from a model's sizes carry them over unchanged; a
/// built layer's rotary scaling is plain.
pub proof fn law_configurations_carry_the_sizes(
    hp: DsV4Hyperparams,
    head_dim: usize,
    ratio: usize,
    heads: usize,
    size: usize,
)
    ensures
        ({
            let a = hp.attn_params_spec();
            &&& a.n_embd == hp.n_embd && a.n_head == hp.n_head && a.head_dim == hp.head_dim
            &&& a.q_lora_rank == hp.q_lora_rank && a.o_lora_rank == hp.o_lora_rank
            &&& a.n_groups == hp.n_groups && a.n_rot == hp.n_rot && a.rope_base == hp.rope_base
            &&& a.rope_mode == hp.rope_mode && a.window_size == hp.window_size
            &&& a.norm_eps == hp.norm_eps && a.yarn is None
        }),
        ({
            let c = hp.compressor_params_spec(head_dim, ratio);
            &&& c.head_dim == head_dim && c.compress_ratio == ratio && c.n_embd == hp.n_embd
            &&& c.n_rot == hp.n_rot && c.rope_base == hp.rope_base
            &&& c.rope_mode == hp.rope_mode && c.norm_eps == hp.norm_eps
        }),
        ({
            let i = hp.indexer_params_spec(heads, size);
            &&& i.n_index_head == heads && i.n_index_head_size == size && i.n_embd == hp.n_embd
            &&& i.q_lora_rank == hp.q_lora_rank && i.n_rot == hp.n_rot
            &&& i.rope_base == hp.rope_base && i.rope_mode == hp.rope_mode
        }),
{
}

/// What the errors of building a layer say.
pub proof fn law_build_error_texts(
    kind: DsV4TensorKind,
    expected: Vec<usize>,
    got_elems: usize,
    name: Seq<char>,
)
    ensures
        DsV4BuildError::MissingTensor(kind).message_text(name) == "missing tensor "@ + name,
        (DsV4BuildError::ShapeMismatch { kind, expected, got_elems }).message_text(name)
            == "shape mismatch for "@ + name + ": expected ["@ + decimal_list(
            expected@.map_values(|d: usize| d as u64),
        ) + "] (= "@ + decimal(shape_size(expected@)) + " elements), got "@ + decimal(
            got_elems as nat,
        ),
        DsV4BuildError::MissingIndexerHyperparams.message_text(name)
            == "indexer hyperparams (head_size, n_head, top_k) required"@,
        DsV4BuildError::IndexerRequiredForCompressRatio4.message_text(name)
            == "compress_ratio == 4 requires indexer support"@,
{
}

} // verus!
