//! Owned per-layer weights, and which attention variant they call for.
use vstd::prelude::*;
use crate::attention::dsv4_params::{
    CompressorParams, DsV4AttnBlockCompressParams, DsV4AttnBlockIndexerParams,
    DsV4AttnBlockParams, IndexerParams,
};
use crate::attention::dsv4_vindex_attn::optional_words;
use crate::tensor::{Block, Cube, Grid, Matrix};

verus! {

/// Owned weights of a compressor.
pub struct CompressorStorage {
    pub wkv: Matrix,
    pub wgate: Matrix,
    pub ape: Matrix,
    pub norm: Vec<u32>,
}

/// What a [`CompressorStorage`] stands for.
pub struct CompressorModel {
    pub wkv: Grid,
    pub wgate: Grid,
    pub ape: Grid,
    pub norm: Seq<u32>,
}

impl View for CompressorStorage {
    type V = CompressorModel;

    open spec fn view(&self) -> CompressorModel {
        CompressorModel {
            wkv: self.wkv.grid(),
            wgate: self.wgate.grid(),
            ape: self.ape.grid(),
            norm: self.norm@,
        }
    }
}

/// A compressor's weights, borrowed.
#[derive(Clone, Copy)]
pub struct CompressorWeights<'a> {
    pub wkv: &'a Matrix,
    pub wgate: &'a Matrix,
    pub ape: &'a Matrix,
    pub norm: &'a Vec<u32>,
}

impl CompressorStorage {
    /// The weights, borrowed.
    pub open spec fn weights_spec(&self) -> CompressorWeights<'_> {
        CompressorWeights { wkv: &self.wkv, wgate: &self.wgate, ape: &self.ape, norm: &self.norm }
    }

    /// The weights, borrowed.
    pub fn as_weights(&self) -> (w: CompressorWeights<'_>)
        ensures
            w == self.weights_spec(),
    {
        CompressorWeights { wkv: &self.wkv, wgate: &self.wgate, ape: &self.ape, norm: &self.norm }
    }
}

/// Owned weights of an indexer: its own compressor and its projections.
pub struct IndexerStorage {
    pub compressor: CompressorStorage,
    pub wq_b: Matrix,
    pub wproj: Matrix,
}

/// What an [`IndexerStorage`] stands for.
pub struct IndexerModel {
    pub compressor: CompressorModel,
    pub wq_b: Grid,
    pub wproj: Grid,
}

impl View for IndexerStorage {
    type V = IndexerModel;

    open spec fn view(&self) -> IndexerModel {
        IndexerModel {
            compressor: self.compressor@,
            wq_b: self.wq_b.grid(),
            wproj: self.wproj.grid(),
        }
    }
}

/// An indexer's projections, borrowed.
#[derive(Clone, Copy)]
pub struct IndexerWeights<'a> {
    pub wq_b: &'a Matrix,
    pub wproj: &'a Matrix,
}

impl IndexerStorage {
    /// The projections, borrowed.
    pub open spec fn weights_spec(&self) -> IndexerWeights<'_> {
        IndexerWeights { wq_b: &self.wq_b, wproj: &self.wproj }
    }

    /// The weights of the indexer's own compressor, borrowed.
    pub fn as_compressor_weights(&self) -> (w: CompressorWeights<'_>)
        ensures
            w == self.compressor.weights_spec(),
    {
        self.compressor.as_weights()
    }

    /// The projections, borrowed.
    pub fn as_indexer_weights(&self) -> (w: IndexerWeights<'_>)
        ensures
            w == self.weights_spec(),
    {
        IndexerWeights { wq_b: &self.wq_b, wproj: &self.wproj }
    }
}

/// All attention-side weights of one layer. Which of the optional parts are
/// there says which variant the layer is.
pub struct DsV4LayerWeightStorage {
    pub attn_norm: Vec<u32>,
    pub wq_a: Matrix,
    pub q_a_norm: Vec<u32>,
    pub wq_b: Matrix,
    pub wkv: Matrix,
    pub kv_a_norm: Vec<u32>,
    pub attn_sinks: Option<Vec<u32>>,
    pub wo_a: Cube,
    pub wo_b: Matrix,
    pub attn_params: DsV4AttnBlockParams,
    pub compressor: Option<CompressorStorage>,
    pub compressor_params: Option<CompressorParams>,
    pub indexer: Option<IndexerStorage>,
    pub indexer_compressor_params: Option<CompressorParams>,
    pub indexer_params: Option<IndexerParams>,
    pub top_k: Option<usize>,
}

/// What a [`DsV4LayerWeightStorage`] stands for.
pub struct StorageModel {
    pub attn_norm: Seq<u32>,
    pub wq_a: Grid,
    pub q_a_norm: Seq<u32>,
    pub wq_b: Grid,
    pub wkv: Grid,
    pub kv_a_norm: Seq<u32>,
    pub attn_sinks: Option<Seq<u32>>,
    pub wo_a: Block,
    pub wo_b: Grid,
    pub attn_params: DsV4AttnBlockParams,
    pub compressor: Option<CompressorModel>,
    pub compressor_params: Option<CompressorParams>,
    pub indexer: Option<IndexerModel>,
    pub indexer_compressor_params: Option<CompressorParams>,
    pub indexer_params: Option<IndexerParams>,
    pub top_k: Option<usize>,
}

impl View for DsV4LayerWeightStorage {
    type V = StorageModel;

    open spec fn view(&self) -> StorageModel {
        StorageModel {
            attn_norm: self.attn_norm@,
            wq_a: self.wq_a.grid(),
            q_a_norm: self.q_a_norm@,
            wq_b: self.wq_b.grid(),
            wkv: self.wkv.grid(),
            kv_a_norm: self.kv_a_norm@,
            attn_sinks: optional_words(self.attn_sinks),
            wo_a: self.wo_a.block(),
            wo_b: self.wo_b.grid(),
            attn_params: self.attn_params,
            compressor: match self.compressor {
                Some(c) => Some(c@),
                None => None,
            },
            compressor_params: self.compressor_params,
            indexer: match self.indexer {
                Some(i) => Some(i@),
                None => None,
            },
            indexer_compressor_params: self.indexer_compressor_params,
            indexer_params: self.indexer_params,
            top_k: self.top_k,
        }
    }
}

/// The main attention weights, borrowed.
#[derive(Clone, Copy)]
pub struct DsV4AttnBlockWeights<'a> {
    pub attn_norm: &'a Vec<u32>,
    pub wq_a: &'a Matrix,
    pub q_a_norm: &'a Vec<u32>,
    pub wq_b: &'a Matrix,
    pub wkv: &'a Matrix,
    pub kv_a_norm: &'a Vec<u32>,
    pub wo_a: &'a Cube,
    pub wo_b: &'a Matrix,
    pub attn_sinks: Option<&'a Vec<u32>>,
}

/// The weights of a block with a compressor, borrowed.
#[derive(Clone, Copy)]
pub struct DsV4AttnBlockCompressWeights<'a> {
    pub attn: DsV4AttnBlockWeights<'a>,
    pub compressor: CompressorWeights<'a>,
}

/// The weights of a block with a compressor and an indexer, borrowed.
#[derive(Clone, Copy)]
pub struct DsV4AttnBlockIndexerWeights<'a> {
    pub attn: DsV4AttnBlockWeights<'a>,
    pub compressor: CompressorWeights<'a>,
    pub indexer_compressor: CompressorWeights<'a>,
    pub indexer: IndexerWeights<'a>,
}

/// The attention variant of a layer with what it runs on.
#[allow(inconsistent_fields)]
#[derive(Clone, Copy)]
pub enum DsV4AttnLayer<'a> {
    NoCompress { weights: DsV4AttnBlockWeights<'a>, params: &'a DsV4AttnBlockParams },
    Compress {
        weights: DsV4AttnBlockCompressWeights<'a>,
        params: &'a DsV4AttnBlockCompressParams,
    },
    Indexer { weights: DsV4AttnBlockIndexerWeights<'a>, params: &'a DsV4AttnBlockIndexerParams },
}

impl<'a> DsV4AttnLayer<'a> {
    /// The variant's name.
    pub fn variant_name(&self) -> (n: &'static str)
        ensures
            n@ == match self {
                DsV4AttnLayer::NoCompress { .. } => "no_compress"@,
                DsV4AttnLayer::Compress { .. } => "compress"@,
                DsV4AttnLayer::Indexer { .. } => "indexer"@,
            },
    {
        match self {
            DsV4AttnLayer::NoCompress { .. } => "no_compress",
            DsV4AttnLayer::Compress { .. } => "compress",
            DsV4AttnLayer::Indexer { .. } => "indexer",
        }
    }
}

impl DsV4LayerWeightStorage {
    /// The main attention weights, borrowed.
    pub open spec fn attn_spec(&self) -> DsV4AttnBlockWeights<'_> {
        DsV4AttnBlockWeights {
            attn_norm: &self.attn_norm,
            wq_a: &self.wq_a,
            q_a_norm: &self.q_a_norm,
            wq_b: &self.wq_b,
            wkv: &self.wkv,
            kv_a_norm: &self.kv_a_norm,
            wo_a: &self.wo_a,
            wo_b: &self.wo_b,
            attn_sinks: match self.attn_sinks {
                Some(s) => Some(&s),
                None => None,
            },
        }
    }

    /// The weights with the compressor, where there is one.
    pub open spec fn compress_spec(&self) -> Option<DsV4AttnBlockCompressWeights<'_>> {
        match self.compressor {
            Some(c) => Some(
                DsV4AttnBlockCompressWeights {
                    attn: self.attn_spec(),
                    compressor: c.weights_spec(),
                },
            ),
            None => None,
        }
    }

    /// The weights with the compressor and the indexer, where both are there.
    pub open spec fn indexer_spec(&self) -> Option<DsV4AttnBlockIndexerWeights<'_>> {
        match (self.compressor, self.indexer) {
            (Some(c), Some(i)) => Some(
                DsV4AttnBlockIndexerWeights {
                    attn: self.attn_spec(),
                    compressor: c.weights_spec(),
                    indexer_compressor: i.compressor.weights_spec(),
                    indexer: i.weights_spec(),
                },
            ),
            _ => None,
        }
    }

    /// The main attention weights, borrowed. Every variant has them.
    pub fn as_attn_weights(&self) -> (w: DsV4AttnBlockWeights<'_>)
        ensures
            w == self.attn_spec(),
    {
        DsV4AttnBlockWeights {
            attn_norm: &self.attn_norm,
            wq_a: &self.wq_a,
            q_a_norm: &self.q_a_norm,
            wq_b: &self.wq_b,
            wkv: &self.wkv,
            kv_a_norm: &self.kv_a_norm,
            wo_a: &self.wo_a,
            wo_b: &self.wo_b,
            attn_sinks: match &self.attn_sinks {
                Some(s) => Some(s),
                None => None,
            },
        }
    }

    /// The weights with the compressor; `None` where there is no compressor.
    pub fn as_compress_weights(&self) -> (w: Option<DsV4AttnBlockCompressWeights<'_>>)
        ensures
            w == self.compress_spec(),
    {
        match &self.compressor {
            Some(c) => Some(
                DsV4AttnBlockCompressWeights {
                    attn: self.as_attn_weights(),
                    compressor: c.as_weights(),
                },
            ),
            None => None,
        }
    }

    /// The weights with the compressor and the indexer; `None` where either is
    /// missing.
    pub fn as_indexer_weights(&self) -> (w: Option<DsV4AttnBlockIndexerWeights<'_>>)
        ensures
            w == self.indexer_spec(),
    {
        match &self.compressor {
            Some(c) => match &self.indexer {
                Some(i) => Some(
                    DsV4AttnBlockIndexerWeights {
                        attn: self.as_attn_weights(),
                        compressor: c.as_weights(),
                        indexer_compressor: i.as_compressor_weights(),
                        indexer: i.as_indexer_weights(),
                    },
                ),
                None => None,
            },
            None => None,
        }
    }

    /// The variant of the layer: the richest one for which both the weights and
    /// the parameters are there.
    pub open spec fn dispatched(
        &self,
        compress_params: Option<DsV4AttnBlockCompressParams>,
        indexer_params: Option<DsV4AttnBlockIndexerParams>,
    ) -> DsV4AttnLayer<'_> {
        match (self.indexer_spec(), indexer_params) {
            (Some(w), Some(p)) => DsV4AttnLayer::Indexer { weights: w, params: &p },
            _ => match (self.compress_spec(), compress_params) {
                (Some(w), Some(p)) => DsV4AttnLayer::Compress { weights: w, params: &p },
                _ => DsV4AttnLayer::NoCompress {
                    weights: self.attn_spec(),
                    params: &self.attn_params,
                },
            },
        }
    }

    /// The variant of the layer: the richest one for which both the weights and
    /// the parameters are there.
    pub fn dispatcher_layer<'a>(
        &'a self,
        compress_params: &'a Option<DsV4AttnBlockCompressParams>,
        indexer_params: &'a Option<DsV4AttnBlockIndexerParams>,
    ) -> (l: DsV4AttnLayer<'a>)
        ensures
            l == self.dispatched(*compress_params, *indexer_params),
    {
        if let Some(p) = indexer_params {
            if let Some(w) = self.as_indexer_weights() {
                return DsV4AttnLayer::Indexer { weights: w, params: p };
            }
        }
        if let Some(p) = compress_params {
            if let Some(w) = self.as_compress_weights() {
                return DsV4AttnLayer::Compress { weights: w, params: p };
            }
        }
        DsV4AttnLayer::NoCompress { weights: self.as_attn_weights(), params: &self.attn_params }
    }
}

/// The weights that a stored layer hands out are its own, each under its own name.
pub proof fn law_weights_are_handed_out_by_name(s: DsV4LayerWeightStorage)
    ensures
        ({
            let w = s.attn_spec();
            &&& *w.attn_norm == s.attn_norm && *w.wq_a == s.wq_a && *w.q_a_norm == s.q_a_norm
            &&& *w.wq_b == s.wq_b && *w.wkv == s.wkv && *w.kv_a_norm == s.kv_a_norm
            &&& *w.wo_a == s.wo_a && *w.wo_b == s.wo_b
            &&& w.attn_sinks is Some <==> s.attn_sinks is Some
            &&& w.attn_sinks matches Some(x) ==> *x == s.attn_sinks->Some_0
        }),
        s.compress_spec() is Some <==> s.compressor is Some,
        s.compress_spec() matches Some(w) ==> {
            let c = s.compressor->Some_0;
            &&& w.attn == s.attn_spec()
            &&& *w.compressor.wkv == c.wkv && *w.compressor.wgate == c.wgate
            &&& *w.compressor.ape == c.ape && *w.compressor.norm == c.norm
        },
        s.indexer_spec() is Some <==> s.compressor is Some && s.indexer is Some,
        s.indexer_spec() matches Some(w) ==> {
            let c = s.compressor->Some_0;
            let i = s.indexer->Some_0;
            &&& w.attn == s.attn_spec()
            &&& *w.compressor.wkv == c.wkv && *w.compressor.wgate == c.wgate
            &&& *w.compressor.ape == c.ape && *w.compressor.norm == c.norm
            &&& *w.indexer_compressor.wkv == i.compressor.wkv
            &&& *w.indexer_compressor.wgate == i.compressor.wgate
            &&& *w.indexer_compressor.ape == i.compressor.ape
            &&& *w.indexer_compressor.norm == i.compressor.norm
            &&& *w.indexer.wq_b == i.wq_b && *w.indexer.wproj == i.wproj
        },
{
}

/// How a stored layer runs: with its indexer where it has compressor and indexer and
/// there are parameters for them; else with its compressor where it has one and there
/// are parameters for it; else with attention alone and the layer's own parameters.
pub proof fn law_layer_runs_with_what_it_has(
    s: DsV4LayerWeightStorage,
    cp: Option<DsV4AttnBlockCompressParams>,
    ip: Option<DsV4AttnBlockIndexerParams>,
)
    ensures
        s.dispatched(cp, ip) is Indexer <==> s.compressor is Some && s.indexer is Some && ip is Some,
        s.dispatched(cp, ip) is Compress <==> s.compressor is Some && cp is Some && !(s.indexer is Some
            && ip is Some),
        s.dispatched(cp, ip) matches DsV4AttnLayer::Indexer { weights, params } ==> *params
            == ip->Some_0 && Some(weights) == s.indexer_spec(),
        s.dispatched(cp, ip) matches DsV4AttnLayer::Compress { weights, params } ==> *params
            == cp->Some_0 && Some(weights) == s.compress_spec(),
        s.dispatched(cp, ip) matches DsV4AttnLayer::NoCompress { weights, params } ==> *params
            == s.attn_params && weights == s.attn_spec(),
{
}

/// What a stored layer is, in plain words and numbers, is field by field what it
/// holds.
pub proof fn law_stored_layer_by_field(s: DsV4LayerWeightStorage)
    ensures
        s@.attn_norm == s.attn_norm@ && s@.q_a_norm == s.q_a_norm@ && s@.kv_a_norm == s.kv_a_norm@,
        s@.wq_a.rows == s.wq_a@ && s@.wq_b.rows == s.wq_b@ && s@.wkv.rows == s.wkv@,
        s@.wo_a.planes == s.wo_a@ && s@.wo_b.rows == s.wo_b@,
        s@.attn_params == s.attn_params && s@.top_k == s.top_k,
        s@.compressor_params == s.compressor_params && s@.indexer_params == s.indexer_params,
        s@.indexer_compressor_params == s.indexer_compressor_params,
        s@.compressor is Some <==> s.compressor is Some,
        s@.indexer is Some <==> s.indexer is Some,
        s@.compressor matches Some(c) ==> c.wkv.rows == s.compressor->Some_0.wkv@ && c.wgate.rows
            == s.compressor->Some_0.wgate@ && c.ape.rows == s.compressor->Some_0.ape@ && c.norm
            == s.compressor->Some_0.norm@,
        s@.indexer matches Some(i) ==> i.wq_b.rows == s.indexer->Some_0.wq_b@ && i.wproj.rows
            == s.indexer->Some_0.wproj@ && i.compressor == s.indexer->Some_0.compressor@,
{
}

} // verus!
