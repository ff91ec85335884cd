//! A forward pass that loads one layer at a time: what every layer shares, the
//! attention parameters that a layer's variant calls for, and the pass itself,
//! with the reading and the floating-point work that the caller brings.
use vstd::prelude::*;
use crate::attention::dsv4_full_loader::{
    layer_result, load_dsv4_layer, DsV4LoadError, LayerSource,
};
use crate::attention::dsv4_model_forward::{
    end_scores, first_streams, head_shapes_kept, head_shapes_match, scores_given, start_streams,
    tokens_allowed, HeadKernel, HeadShapes,
};
use crate::attention::dsv4_params::{
    CompressorParams, DsV4AttnBlockCompressParams, DsV4AttnBlockIndexerParams,
    DsV4AttnBlockParams, DsV4LayerParams, DsV4LayerVariant, DsV4RopeMode, Dsv4FfnParams,
    IndexerParams, MhcParams,
};
use crate::attention::dsv4_storage::{DsV4AttnLayer, DsV4LayerWeightStorage};
use crate::attention::dsv4_storage_build::DsV4Hyperparams;
use crate::tensor::{Cube, Matrix};

verus! {

/// How often the stream-mixing matrix is balanced.
pub const SINKHORN_ITERS: usize = 2;

/// The bit pattern of 1e-5.
pub const HC_EPS: u32 = 0x3727_C5AC;

/// The bit pattern of 7.0.
pub const ROUTED_SWIGLU_LIMIT: u32 = 0x40E0_0000;

/// The bit pattern of 0.0.
pub const SHARED_SWIGLU_LIMIT: u32 = 0;

/// What every layer of the model shares.
pub open spec fn layer_params(hp: DsV4Hyperparams) -> DsV4LayerParams {
    DsV4LayerParams {
        mhc: MhcParams {
            n_embd: hp.n_embd,
            n_hc: hp.n_hc,
            sinkhorn_iters: SINKHORN_ITERS,
            hc_eps: HC_EPS,
            norm_eps: hp.norm_eps,
        },
        ffn: Dsv4FfnParams {
            n_expert: hp.n_expert,
            n_expert_used: hp.n_expert_used,
            norm_eps: hp.norm_eps,
            routed_swiglu_limit: ROUTED_SWIGLU_LIMIT,
            shared_swiglu_limit: SHARED_SWIGLU_LIMIT,
            expert_weights_norm: hp.expert_weights_norm,
            expert_weights_scale: hp.expert_weights_scale,
        },
    }
}

/// What every layer of the model shares.
pub fn build_layer_params(hp: &DsV4Hyperparams) -> (p: DsV4LayerParams)
    ensures
        p == layer_params(*hp),
{
    DsV4LayerParams {
        mhc: MhcParams {
            n_embd: hp.n_embd,
            n_hc: hp.n_hc,
            sinkhorn_iters: SINKHORN_ITERS,
            hc_eps: HC_EPS,
            norm_eps: hp.norm_eps,
        },
        ffn: Dsv4FfnParams {
            n_expert: hp.n_expert,
            n_expert_used: hp.n_expert_used,
            norm_eps: hp.norm_eps,
            routed_swiglu_limit: ROUTED_SWIGLU_LIMIT,
            shared_swiglu_limit: SHARED_SWIGLU_LIMIT,
            expert_weights_norm: hp.expert_weights_norm,
            expert_weights_scale: hp.expert_weights_scale,
        },
    }
}

/// A compressor of heads of a size, always with the Neox pairing.
pub open spec fn stream_compressor(
    hp: DsV4Hyperparams,
    head_dim: usize,
    compress_ratio: usize,
) -> CompressorParams {
    CompressorParams {
        head_dim,
        n_embd: hp.n_embd,
        compress_ratio,
        n_rot: hp.n_rot,
        rope_base: hp.rope_base,
        rope_mode: DsV4RopeMode::Neox,
        norm_eps: hp.norm_eps,
    }
}

/// The parameters of a layer with a compressor. Unlike those that a stored
/// layer carries, they take the model's rotary scaling and always the Neox
/// pairing.
pub open spec fn compress_params(hp: DsV4Hyperparams, compress_ratio: usize) ->
    DsV4AttnBlockCompressParams {
    DsV4AttnBlockCompressParams {
        attn: DsV4AttnBlockParams {
            rope_mode: DsV4RopeMode::Neox,
            yarn: hp.yarn,
            ..hp.attn_params_spec()
        },
        compressor: stream_compressor(hp, hp.head_dim, compress_ratio),
    }
}

/// The parameters of a layer with a compressor and an indexer.
pub open spec fn indexer_params(hp: DsV4Hyperparams, compress_ratio: usize) ->
    DsV4AttnBlockIndexerParams {
    let ihead = hp.indexer_head_size->Some_0;
    DsV4AttnBlockIndexerParams {
        attn: compress_params(hp, compress_ratio).attn,
        compressor: compress_params(hp, compress_ratio).compressor,
        indexer_compressor: stream_compressor(hp, ihead, compress_ratio),
        indexer: IndexerParams {
            n_embd: hp.n_embd,
            q_lora_rank: hp.q_lora_rank,
            n_index_head: hp.n_index_head->Some_0,
            n_index_head_size: ihead,
            n_rot: hp.n_rot,
            rope_base: hp.rope_base,
            rope_mode: DsV4RopeMode::Neox,
        },
        top_k: hp.top_k->Some_0,
    }
}

fn build_stream_compressor(hp: &DsV4Hyperparams, head_dim: usize, compress_ratio: usize) -> (p:
    CompressorParams)
    ensures
        p == stream_compressor(*hp, head_dim, compress_ratio),
{
    CompressorParams {
        head_dim,
        n_embd: hp.n_embd,
        compress_ratio,
        n_rot: hp.n_rot,
        rope_base: hp.rope_base,
        rope_mode: DsV4RopeMode::Neox,
        norm_eps: hp.norm_eps,
    }
}

/// The parameters of a layer with a compressor.
pub fn build_compress_params(hp: &DsV4Hyperparams, compress_ratio: usize) -> (p:
    DsV4AttnBlockCompressParams)
    ensures
        p == compress_params(*hp, compress_ratio),
{
    let mut attn: DsV4AttnBlockParams = hp.attn_params();
    attn.rope_mode = DsV4RopeMode::Neox;
    attn.yarn = hp.yarn;
    DsV4AttnBlockCompressParams {
        attn,
        compressor: build_stream_compressor(hp, hp.head_dim, compress_ratio),
    }
}

/// The parameters of a layer with a compressor and an indexer.
pub fn build_indexer_params(hp: &DsV4Hyperparams, compress_ratio: usize) -> (p:
    DsV4AttnBlockIndexerParams)
    requires
        crate::attention::dsv4_storage_build::has_indexer_hp(*hp),
    ensures
        p == indexer_params(*hp, compress_ratio),
{
    let cp: DsV4AttnBlockCompressParams = build_compress_params(hp, compress_ratio);
    let ihead: usize = hp.indexer_head_size.unwrap();
    DsV4AttnBlockIndexerParams {
        attn: cp.attn,
        compressor: cp.compressor,
        indexer_compressor: build_stream_compressor(hp, ihead, compress_ratio),
        indexer: IndexerParams {
            n_embd: hp.n_embd,
            q_lora_rank: hp.q_lora_rank,
            n_index_head: hp.n_index_head.unwrap(),
            n_index_head_size: ihead,
            n_rot: hp.n_rot,
            rope_base: hp.rope_base,
            rope_mode: DsV4RopeMode::Neox,
        },
        top_k: hp.top_k.unwrap(),
    }
}

/// The parameters that a layer's variant calls for where it has a compressor.
pub open spec fn picked_compress(hp: DsV4Hyperparams, variant: DsV4LayerVariant) -> Option<
    DsV4AttnBlockCompressParams,
> {
    match variant.compress_ratio {
        None => None,
        Some(n) => Some(compress_params(hp, n)),
    }
}

/// The parameters that a layer's variant calls for where it has an indexer.
pub open spec fn picked_indexer(hp: DsV4Hyperparams, variant: DsV4LayerVariant) -> Option<
    DsV4AttnBlockIndexerParams,
> {
    if variant.compress_ratio == Some(4usize) && variant.has_indexer && hp.indexer_head_size is Some {
        Some(indexer_params(hp, 4))
    } else {
        None
    }
}

/// The attention parameters of every variant, made once for a whole pass. Its
/// view is the hyperparameters that it was made from.
pub struct DispatchParamsPool {
    hp: DsV4Hyperparams,
    no_cp: Option<DsV4AttnBlockCompressParams>,
    no_ip: Option<DsV4AttnBlockIndexerParams>,
    cp_4: Option<DsV4AttnBlockCompressParams>,
    ip_4: Option<DsV4AttnBlockIndexerParams>,
    cp_128: Option<DsV4AttnBlockCompressParams>,
}

impl View for DispatchParamsPool {
    type V = DsV4Hyperparams;

    closed spec fn view(&self) -> DsV4Hyperparams {
        self.hp
    }
}

impl DispatchParamsPool {
    /// The pool holds what the hyperparameters give.
    pub closed spec fn wf(&self) -> bool {
        &&& self.no_cp is None
        &&& self.no_ip is None
        &&& self.cp_4 == Some(compress_params(self.hp, 4))
        &&& self.ip_4 == (if self.hp.indexer_head_size is Some {
            Some(indexer_params(self.hp, 4))
        } else {
            None
        })
        &&& self.cp_128 == Some(compress_params(self.hp, 128))
    }

    /// The pool of a model. A model with an indexer head size has the other
    /// indexer hyperparameters too.
    pub fn new(hp: &DsV4Hyperparams) -> (pool: Self)
        requires
            hp.indexer_head_size is Some ==> hp.n_index_head is Some && hp.top_k is Some,
        ensures
            pool.wf(),
            pool@ == *hp,
    {
        let ip_4: Option<DsV4AttnBlockIndexerParams> = if hp.indexer_head_size.is_some() {
            Some(build_indexer_params(hp, 4))
        } else {
            None
        };
        DispatchParamsPool {
            hp: *hp,
            no_cp: None,
            no_ip: None,
            cp_4: Some(build_compress_params(hp, 4)),
            ip_4,
            cp_128: Some(build_compress_params(hp, 128)),
        }
    }

    /// The parameters that a layer's variant calls for. Ratios other than four
    /// and 128 do not occur.
    pub fn pick(&self, variant: &DsV4LayerVariant) -> (r: (
        &Option<DsV4AttnBlockCompressParams>,
        &Option<DsV4AttnBlockIndexerParams>,
    ))
        requires
            self.wf(),
            variant.compress_ratio matches Some(n) ==> n == 4 || n == 128,
        ensures
            *r.0 == picked_compress(self@, *variant),
            *r.1 == picked_indexer(self@, *variant),
    {
        match variant.compress_ratio {
            None => (&self.no_cp, &self.no_ip),
            Some(n) => if n == 4 {
                if variant.has_indexer {
                    (&self.cp_4, &self.ip_4)
                } else {
                    (&self.cp_4, &self.no_ip)
                }
            } else {
                (&self.cp_128, &self.no_ip)
            },
        }
    }
}

/// What a layer runs on: the richest of its variants for which both the weights
/// and the parameters are there, the parameters being those that its variant
/// calls for.
pub open spec fn streamed_attn<'a>(
    storage: &'a DsV4LayerWeightStorage,
    hp: DsV4Hyperparams,
    variant: DsV4LayerVariant,
) -> DsV4AttnLayer<'a> {
    storage.dispatched(picked_compress(hp, variant), picked_indexer(hp, variant))
}

/// A layer's tensors can be shaped, and where it loads its variant has a ratio that
/// occurs.
pub open spec fn source_allowed(source: LayerSource, hp: DsV4Hyperparams) -> bool {
    &&& source.allowed(hp)
    &&& source.loads(hp) ==> (source.variant.compress_ratio matches Some(n) ==> n == 4 || n == 128)
}

/// The layer with a number was read and loaded, and made `out` of the streams: it
/// ran on its own storage, with the parameters that its variant calls for and
/// those that all layers share. The layer is whatever the caller brings.
pub open spec fn layer_streamed<
    S: Fn(usize) -> LayerSource,
    R: Fn(usize, DsV4AttnLayer<'_>, DsV4LayerParams, &Cube, &Vec<u32>, usize) -> Cube,
>(
    read: S,
    layer: R,
    hp: DsV4Hyperparams,
    index: usize,
    token_ids: &Vec<u32>,
    position_offset: usize,
    x: Cube,
    out: Cube,
) -> bool {
    exists|source: LayerSource, storage: DsV4LayerWeightStorage|
        {
            &&& #[trigger] call_ensures(read, (index,), source)
            &&& #[trigger] layer_result(source, hp, index, Ok((storage, source.variant)))
            &&& source.loads(hp)
            &&& call_ensures(
                layer,
                (
                    index,
                    streamed_attn(&storage, hp, source.variant),
                    layer_params(hp),
                    &x,
                    token_ids,
                    position_offset,
                ),
                out,
            )
        }
}

/// The layer with a number was read and did not load, and this is its error.
pub open spec fn layer_failed<S: Fn(usize) -> LayerSource>(
    read: S,
    hp: DsV4Hyperparams,
    index: usize,
    e: DsV4LoadError,
) -> bool {
    exists|source: LayerSource|
        #[trigger] call_ensures(read, (index,), source) && !source.loads(hp) && layer_result(
            source,
            hp,
            index,
            Err(e),
        )
}

/// The first `n` layers ran one after the other: `xs` are the streams, before the
/// first layer and behind every layer.
pub open spec fn layers_streamed<
    S: Fn(usize) -> LayerSource,
    R: Fn(usize, DsV4AttnLayer<'_>, DsV4LayerParams, &Cube, &Vec<u32>, usize) -> Cube,
>(
    read: S,
    layer: R,
    hp: DsV4Hyperparams,
    token_ids: &Vec<u32>,
    layer_indices: Seq<usize>,
    position_offset: usize,
    xs: Seq<Cube>,
    n: nat,
) -> bool {
    &&& xs.len() == n + 1
    &&& forall|l: int|
        0 <= l < n ==> layer_streamed(
            read,
            layer,
            hp,
            #[trigger] layer_indices[l],
            token_ids,
            position_offset,
            xs[l],
            xs[l + 1],
        )
}

/// A layer hands on streams of the shape that it gets.
pub open spec fn layer_keeps_shape<
    R: Fn(usize, DsV4AttnLayer<'_>, DsV4LayerParams, &Cube, &Vec<u32>, usize) -> Cube,
>(layer: R) -> bool {
    forall|
        i: usize,
        w: DsV4AttnLayer<'_>,
        p: DsV4LayerParams,
        x: &Cube,
        ids: &Vec<u32>,
        o: usize,
        y: Cube,
    | #[trigger]
        call_ensures(layer, (i, w, p, x, ids, o), y) ==> y@.len() == x@.len() && y.height()
            == x.height() && y.width() == x.width()
}

/// A layer can be called.
pub open spec fn layer_callable<
    R: Fn(usize, DsV4AttnLayer<'_>, DsV4LayerParams, &Cube, &Vec<u32>, usize) -> Cube,
>(layer: R) -> bool {
    forall|
        i: usize,
        w: DsV4AttnLayer<'_>,
        p: DsV4LayerParams,
        x: &Cube,
        ids: &Vec<u32>,
        o: usize,
    |
        call_requires(layer, (i, w, p, x, ids, o))
}

/// A pass of some tokens through the layers with some numbers: each is read when its
/// turn comes, loaded, run on the streams and dropped. The first layer that does not
/// load ends the pass with its error.
pub fn dsv4_streaming_model_forward<
    S: Fn(usize) -> LayerSource,
    R: Fn(usize, DsV4AttnLayer<'_>, DsV4LayerParams, &Cube, &Vec<u32>, usize) -> Cube,
    T: Fn(HeadKernel, &Matrix) -> Matrix,
    W: Fn(&Cube, &Matrix) -> Matrix,
>(
    hp: &DsV4Hyperparams,
    token_ids: &Vec<u32>,
    token_embd: &Matrix,
    head: &HeadShapes,
    layer_indices: &[usize],
    position_offset: usize,
    read: &S,
    layer: &R,
    tables: &T,
    weigh: &W,
) -> (r: Result<Matrix, DsV4LoadError>)
    requires
        hp.indexer_head_size is Some ==> hp.n_index_head is Some && hp.top_k is Some,
        tokens_allowed(token_ids@, *token_embd, hp.n_hc as nat),
        head_shapes_match(*head, hp.n_hc as nat, token_embd.width()),
        forall|i: usize| call_requires(*read, (i,)),
        forall|i: usize, s: LayerSource| #[trigger]
            call_ensures(*read, (i,), s) ==> source_allowed(s, *hp),
        layer_callable(*layer),
        layer_keeps_shape(*layer),
        forall|k: HeadKernel, m: &Matrix| call_requires(*tables, (k, m)),
        forall|c: &Cube, m: &Matrix| call_requires(*weigh, (c, m)),
        head_shapes_kept(*tables, *weigh, head.n_vocab as nat),
    ensures
        match r {
            Ok(out) => out@.len() == token_ids@.len() && out.width() == head.n_vocab && exists|
                xs: Seq<Cube>,
            |
                {
                    &&& #[trigger] layers_streamed(
                        *read,
                        *layer,
                        *hp,
                        token_ids,
                        layer_indices@,
                        position_offset,
                        xs,
                        layer_indices@.len(),
                    )
                    &&& xs[0]@ == first_streams(token_ids@, token_embd@, hp.n_hc as nat)
                    &&& scores_given(*tables, *weigh, xs.last(), out)
                },
            Err(e) => exists|xs: Seq<Cube>, n: nat|
                {
                    &&& #[trigger] layers_streamed(
                        *read,
                        *layer,
                        *hp,
                        token_ids,
                        layer_indices@,
                        position_offset,
                        xs,
                        n,
                    )
                    &&& xs[0]@ == first_streams(token_ids@, token_embd@, hp.n_hc as nat)
                    &&& n < layer_indices@.len()
                    &&& layer_failed(*read, *hp, layer_indices@[n as int], e)
                },
        },
{
    let params: DsV4LayerParams = build_layer_params(hp);
    let pool: DispatchParamsPool = DispatchParamsPool::new(hp);
    let mut x: Cube = start_streams(token_ids, token_embd, hp.n_hc);
    let ghost mut xs: Seq<Cube> = seq![x];
    let mut l: usize = 0;
    while l < layer_indices.len()
        invariant
            l <= layer_indices@.len(),
            pool.wf(),
            pool@ == *hp,
            params == layer_params(*hp),
            forall|i: usize| call_requires(*read, (i,)),
            forall|i: usize, s: LayerSource| #[trigger]
                call_ensures(*read, (i,), s) ==> source_allowed(s, *hp),
            layer_callable(*layer),
            layer_keeps_shape(*layer),
            layers_streamed(
                *read,
                *layer,
                *hp,
                token_ids,
                layer_indices@,
                position_offset,
                xs,
                l as nat,
            ),
            xs[0]@ == first_streams(token_ids@, token_embd@, hp.n_hc as nat),
            x == xs.last(),
            x@.len() == token_ids@.len(),
            x.height() == hp.n_hc,
            x.width() == token_embd.width(),
        decreases layer_indices@.len() - l,
    {
        let index: usize = layer_indices[l];
        let source: LayerSource = read(index);
        let ghost from = source;
        assert(call_ensures(*read, (index,), from));
        let (storage, variant): (DsV4LayerWeightStorage, DsV4LayerVariant) = match load_dsv4_layer(
            source,
            hp,
            index,
        ) {
            Ok(loaded) => loaded,
            Err(e) => {
                assert(layer_failed(*read, *hp, layer_indices@[l as int], e));
                return Err(e);
            },
        };
        assert(layer_result(from, *hp, index, Ok((storage, from.variant))));
        let (cp, ip) = pool.pick(&variant);
        let attn: DsV4AttnLayer<'_> = storage.dispatcher_layer(cp, ip);
        let ghost given = (index, attn, params, &x, token_ids, position_offset);
        let next: Cube = layer(index, attn, params, &x, token_ids, position_offset);
        proof {
            assert(call_ensures(*layer, given, next));
            assert(layer_streamed(
                *read,
                *layer,
                *hp,
                index,
                token_ids,
                position_offset,
                x,
                next,
            ));
            let before = xs;
            xs = xs.push(next);
            assert forall|i: int| 0 <= i < l + 1 implies layer_streamed(
                *read,
                *layer,
                *hp,
                #[trigger] layer_indices@[i],
                token_ids,
                position_offset,
                xs[i],
                xs[i + 1],
            ) by {
                if i < l {
                    assert(xs[i] == before[i] && xs[i + 1] == before[i + 1]);
                }
            }
            assert(xs[0] == before[0]);
        }
        x = next;
        l = l + 1;
    }
    Ok(end_scores(&x, head, tables, weigh))
}

/// What every layer shares carries the model's sizes over; the rest is fixed: two
/// rounds of balancing, one hundred-thousandth against division by zero, a limit of
/// seven for the routed experts and none for the shared one.
pub proof fn law_shared_parameters(hp: DsV4Hyperparams)
    ensures
        ({
            let p = layer_params(hp);
            &&& p.mhc.n_embd == hp.n_embd && p.mhc.n_hc == hp.n_hc && p.mhc.norm_eps == hp.norm_eps
            &&& p.mhc.sinkhorn_iters == 2 && p.mhc.hc_eps == 0x3727_C5AC
            &&& p.ffn.n_expert == hp.n_expert && p.ffn.n_expert_used == hp.n_expert_used
            &&& p.ffn.norm_eps == hp.norm_eps
            &&& p.ffn.expert_weights_norm == hp.expert_weights_norm
            &&& p.ffn.expert_weights_scale == hp.expert_weights_scale
            &&& p.ffn.routed_swiglu_limit == 0x40E0_0000 && p.ffn.shared_swiglu_limit == 0
        }),
{
}

/// The parameters of a layer that compresses: the model's sizes and its rotary
/// scaling, dimensions paired half by half, and a compressor of the heads' size with
/// the layer's ratio; with an indexer also its heads, and a compressor of their size.
pub proof fn law_compressing_parameters(hp: DsV4Hyperparams, ratio: usize)
    ensures
        ({
            let p = compress_params(hp, ratio);
            &&& p.attn.rope_mode is Neox && p.attn.yarn == hp.yarn
            &&& p.attn.n_embd == hp.n_embd && p.attn.n_head == hp.n_head
            &&& p.attn.head_dim == hp.head_dim && p.attn.q_lora_rank == hp.q_lora_rank
            &&& p.attn.n_groups == hp.n_groups && p.attn.o_lora_rank == hp.o_lora_rank
            &&& p.attn.n_rot == hp.n_rot && p.attn.rope_base == hp.rope_base
            &&& p.attn.window_size == hp.window_size && p.attn.norm_eps == hp.norm_eps
            &&& p.compressor.head_dim == hp.head_dim && p.compressor.compress_ratio == ratio
            &&& p.compressor.n_embd == hp.n_embd && p.compressor.n_rot == hp.n_rot
            &&& p.compressor.rope_base == hp.rope_base && p.compressor.rope_mode is Neox
            &&& p.compressor.norm_eps == hp.norm_eps
        }),
        hp.indexer_head_size is Some && hp.n_index_head is Some && hp.top_k is Some ==> {
            let p = indexer_params(hp, ratio);
            &&& p.attn == compress_params(hp, ratio).attn
            &&& p.compressor == compress_params(hp, ratio).compressor
            &&& Some(p.indexer_compressor.head_dim) == hp.indexer_head_size
            &&& p.indexer_compressor.compress_ratio == ratio
            &&& p.indexer_compressor.n_embd == hp.n_embd
            &&& p.indexer_compressor.n_rot == hp.n_rot
            &&& p.indexer_compressor.rope_base == hp.rope_base
            &&& p.indexer_compressor.rope_mode is Neox
            &&& p.indexer_compressor.norm_eps == hp.norm_eps
            &&& Some(p.indexer.n_index_head_size) == hp.indexer_head_size
            &&& Some(p.indexer.n_index_head) == hp.n_index_head
            &&& p.indexer.n_embd == hp.n_embd && p.indexer.q_lora_rank == hp.q_lora_rank
            &&& p.indexer.n_rot == hp.n_rot && p.indexer.rope_base == hp.rope_base
            &&& p.indexer.rope_mode is Neox
            &&& Some(p.top_k) == hp.top_k
        },
{
}

/// Which parameters a layer is run with: those of its ratio where it compresses, and
/// an indexer's where it compresses by four, has one and the model has its size.
pub proof fn law_parameters_by_variant(hp: DsV4Hyperparams, variant: DsV4LayerVariant)
    ensures
        picked_compress(hp, variant) is Some <==> variant.compress_ratio is Some,
        picked_compress(hp, variant) matches Some(p) ==> Some(p.compressor.compress_ratio)
            == variant.compress_ratio && p == compress_params(hp, p.compressor.compress_ratio),
        picked_indexer(hp, variant) is Some <==> variant.compress_ratio == Some(4usize)
            && variant.has_indexer && hp.indexer_head_size is Some,
        picked_indexer(hp, variant) matches Some(p) ==> p == indexer_params(hp, 4),
{
}

/// A streamed layer was read by its own number, it loaded, and it was run, by the same
/// number, with the weights and parameters of its variant, on what the layer before it
/// left, with all tokens and the offset of the pass.
pub proof fn law_streamed_layer_steps<
    S: Fn(usize) -> LayerSource,
    R: Fn(usize, DsV4AttnLayer<'_>, DsV4LayerParams, &Cube, &Vec<u32>, usize) -> Cube,
>(
    read: S,
    layer: R,
    hp: DsV4Hyperparams,
    token_ids: &Vec<u32>,
    layer_indices: Seq<usize>,
    position_offset: usize,
    xs: Seq<Cube>,
    n: nat,
    l: int,
)
    requires
        layers_streamed(read, layer, hp, token_ids, layer_indices, position_offset, xs, n),
        0 <= l < n,
    ensures
        xs.len() == n + 1,
        exists|source: LayerSource, storage: DsV4LayerWeightStorage|
            {
                &&& #[trigger] call_ensures(read, (layer_indices[l],), source)
                &&& #[trigger] layer_result(
                    source,
                    hp,
                    layer_indices[l],
                    Ok((storage, source.variant)),
                )
                &&& source.loads(hp)
                &&& call_ensures(
                    layer,
                    (
                        layer_indices[l],
                        storage.dispatched(
                            picked_compress(hp, source.variant),
                            picked_indexer(hp, source.variant),
                        ),
                        layer_params(hp),
                        &xs[l],
                        token_ids,
                        position_offset,
                    ),
                    xs[l + 1],
                )
            },
{
    assert(layer_streamed(
        read,
        layer,
        hp,
        layer_indices[l],
        token_ids,
        position_offset,
        xs[l],
        xs[l + 1],
    ));
}

/// A layer that failed was read by its own number, does not load, and its error is
/// what loading it gives.
pub proof fn law_failed_layer<S: Fn(usize) -> LayerSource>(
    read: S,
    hp: DsV4Hyperparams,
    index: usize,
    e: DsV4LoadError,
)
    requires
        layer_failed(read, hp, index, e),
    ensures
        exists|source: LayerSource|
            #[trigger] call_ensures(read, (index,), source) && !source.loads(hp) && layer_result(
                source,
                hp,
                index,
                Err(e),
            ),
{
}

} // verus!
