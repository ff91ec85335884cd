//! A whole DeepSeek V4 model out of a vindex: its geometry, its layers, and the
//! loop that generates with it.
use vstd::prelude::*;
use vstd::string::*;
use crate::attention::dsv4_forward::Dsv4Dims;
use crate::attention::dsv4_load_vindex::{
    attn_entries_allowed, attn_plan, attn_readable, build_attn_weights, build_moe_weights,
    find_lm_head_descriptor, find_norm_vector, first_lm_head, lm_head_region, moe_entries_allowed,
    moe_plan, moe_readable, norm_words, AttnPlan, AttnPlanModel, Dsv4LoadError, ExpertFile,
    LoadFault, MoePlan, MoePlanModel, TensorRegion, VindexFiles,
};
use crate::text::{copy_text, decimal, decimal_text, same_text};

verus! {

/// The bit pattern of 1e-6.
pub const NORM_EPS: u32 = 0x3586_37BD;

/// The bit pattern of 1.5.
pub const EXPERT_WEIGHTS_SCALE: u32 = 0x3FC0_0000;

/// The bit pattern of 10000.0 in double precision.
pub const ROPE_BASE: u64 = 0x40C3_8800_0000_0000;

/// The expert part of a model's configuration.
#[derive(Clone, Copy, Debug, PartialEq, Eq, Structural)]
pub struct MoeConfig {
    pub num_experts: usize,
    pub top_k: usize,
    pub shared_expert: bool,
    pub moe_intermediate_size: Option<usize>,
}

/// A model's configuration. `rope_base` is a bit pattern.
#[derive(Clone, Debug)]
pub struct ModelConfig {
    pub model_type: String,
    pub num_q_heads: usize,
    pub head_dim: usize,
    pub rope_base: u64,
    pub moe: Option<MoeConfig>,
}

/// A vindex's configuration.
#[derive(Clone, Debug)]
pub struct VindexConfig {
    pub hidden_size: usize,
    pub vocab_size: usize,
    pub num_layers: usize,
    pub model_config: Option<ModelConfig>,
}

impl VindexConfig {
    /// The expert part, where there is one.
    pub open spec fn moe(&self) -> Option<MoeConfig> {
        match self.model_config {
            Some(c) => c.moe,
            None => None,
        }
    }

    /// The model's family; empty where it is not given.
    pub open spec fn family(&self) -> Seq<char> {
        match self.model_config {
            Some(c) => c.model_type@,
            None => Seq::empty(),
        }
    }
}

/// The geometry that a configuration gives. What it leaves out is that of the
/// published model.
pub open spec fn dims_of(cfg: VindexConfig) -> Dsv4Dims {
    let moe = cfg.moe();
    Dsv4Dims {
        hidden: cfg.hidden_size,
        q_lora_rank: 1024,
        kv_lora_rank: 512,
        n_heads: match cfg.model_config {
            Some(c) => c.num_q_heads,
            None => 64,
        },
        head_dim: match cfg.model_config {
            Some(c) => c.head_dim,
            None => 512,
        },
        output_intermediate: 8192,
        ffn_dim: match moe {
            Some(m) => match m.moe_intermediate_size {
                Some(n) => n,
                None => 2048,
            },
            None => 2048,
        },
        num_experts: match moe {
            Some(m) => m.num_experts,
            None => 256,
        },
        experts_per_token: match moe {
            Some(m) => m.top_k,
            None => 6,
        },
        num_shared_experts: match moe {
            Some(m) => if m.shared_expert {
                1
            } else {
                0
            },
            None => 1,
        },
        vocab: cfg.vocab_size,
        norm_eps: NORM_EPS,
        expert_weights_scale: EXPERT_WEIGHTS_SCALE,
        rope_dim: 64,
        rope_base: match cfg.model_config {
            Some(c) => c.rope_base,
            None => ROPE_BASE,
        },
    }
}

/// The geometry that a configuration gives.
pub fn derive_dims(cfg: &VindexConfig) -> (d: Dsv4Dims)
    ensures
        d == dims_of(*cfg),
{
    let moe: Option<MoeConfig> = match &cfg.model_config {
        Some(c) => c.moe,
        None => None,
    };
    let n_heads: usize = match &cfg.model_config {
        Some(c) => c.num_q_heads,
        None => 64,
    };
    let head_dim: usize = match &cfg.model_config {
        Some(c) => c.head_dim,
        None => 512,
    };
    let rope_base: u64 = match &cfg.model_config {
        Some(c) => c.rope_base,
        None => ROPE_BASE,
    };
    let num_experts: usize = match moe {
        Some(m) => m.num_experts,
        None => 256,
    };
    let experts_per_token: usize = match moe {
        Some(m) => m.top_k,
        None => 6,
    };
    let num_shared_experts: usize = match moe {
        Some(m) => if m.shared_expert {
            1
        } else {
            0
        },
        None => 1,
    };
    let ffn_dim: usize = match moe {
        Some(m) => match m.moe_intermediate_size {
            Some(n) => n,
            None => 2048,
        },
        None => 2048,
    };
    Dsv4Dims {
        hidden: cfg.hidden_size,
        q_lora_rank: 1024,
        kv_lora_rank: 512,
        n_heads,
        head_dim,
        output_intermediate: 8192,
        ffn_dim,
        num_experts,
        experts_per_token,
        num_shared_experts,
        vocab: cfg.vocab_size,
        norm_eps: NORM_EPS,
        expert_weights_scale: EXPERT_WEIGHTS_SCALE,
        rope_dim: 64,
        rope_base,
    }
}

/// The shapes of a loaded model that its geometry can be read off, each as
/// `(rows, columns)`; those of the projections are of the first layer.
#[derive(Clone, Copy, Debug)]
pub struct WeightShapes {
    pub embed: (usize, usize),
    pub kv: (usize, usize),
    pub q_a: (usize, usize),
    pub q_b: (usize, usize),
    pub output_a: (usize, usize),
    pub shared_down: (usize, usize),
    pub num_experts: usize,
}

/// The geometry that shapes show. What they do not show is that of the published
/// model.
pub open spec fn shown_dims(s: WeightShapes) -> Dsv4Dims {
    Dsv4Dims {
        hidden: s.embed.1,
        q_lora_rank: s.q_a.0,
        kv_lora_rank: s.kv.0,
        n_heads: 64,
        head_dim: (s.q_b.0 as int / 64) as usize,
        output_intermediate: s.output_a.0,
        ffn_dim: s.shared_down.1,
        num_experts: s.num_experts,
        experts_per_token: 6,
        num_shared_experts: 1,
        vocab: s.embed.0,
        norm_eps: NORM_EPS,
        expert_weights_scale: EXPERT_WEIGHTS_SCALE,
        rope_dim: 64,
        rope_base: ROPE_BASE,
    }
}

/// The geometry that a loaded model shows. What the shapes do not show is that
/// of the published model.
pub fn dsv4_dims_from_weights(s: &WeightShapes) -> (d: Dsv4Dims)
    ensures
        d == shown_dims(*s),
{
    Dsv4Dims {
        hidden: s.embed.1,
        q_lora_rank: s.q_a.0,
        kv_lora_rank: s.kv.0,
        n_heads: 64,
        head_dim: s.q_b.0 / 64,
        output_intermediate: s.output_a.0,
        ffn_dim: s.shared_down.1,
        num_experts: s.num_experts,
        experts_per_token: 6,
        num_shared_experts: 1,
        vocab: s.embed.0,
        norm_eps: NORM_EPS,
        expert_weights_scale: EXPERT_WEIGHTS_SCALE,
        rope_dim: 64,
        rope_base: ROPE_BASE,
    }
}

/// The shapes of the weights of a geometry.
pub open spec fn shapes_of(d: Dsv4Dims) -> WeightShapes {
    WeightShapes {
        embed: (d.vocab, d.hidden),
        kv: (d.kv_lora_rank, d.hidden),
        q_a: (d.q_lora_rank, d.hidden),
        q_b: ((d.n_heads * d.head_dim) as usize, d.q_lora_rank),
        output_a: (d.output_intermediate, d.hidden),
        shared_down: (d.hidden, d.ffn_dim),
        num_experts: d.num_experts,
    }
}

/// The weights of a model whose configuration keeps to the published values show
/// the geometry that the configuration gives.
pub proof fn law_weights_show_the_configured_dims(cfg: VindexConfig)
    requires
        dims_of(cfg).n_heads == 64,
        dims_of(cfg).n_heads * dims_of(cfg).head_dim <= usize::MAX,
        dims_of(cfg).experts_per_token == 6,
        dims_of(cfg).num_shared_experts == 1,
        dims_of(cfg).rope_base == ROPE_BASE,
    ensures
        shown_dims(shapes_of(dims_of(cfg))) == dims_of(cfg),
{
    let d = dims_of(cfg);
    assert((d.n_heads * d.head_dim) / 64 == d.head_dim) by (nonlinear_arith)
        requires
            d.n_heads == 64,
    ;
}

// ---- the whole model -------------------------------------------------------

/// A text in quotes, with what cannot be shown escaped.
pub uninterp spec fn quoted(text: Seq<char>) -> Seq<char>;

/// Calls `format!` with the `Debug` formatting of `str`. What it writes depends
/// on the text alone; which characters are escaped, and how, is not said.
#[verifier::external_body]
fn quoted_text(text: &str) -> (t: String)
    ensures
        t@ == quoted(text@),
{
    format!("{text:?}")
}

/// The message for a vindex of another family. `dir` is how the directory is
/// written, `family` how the family is.
pub open spec fn family_text(dir: Seq<char>, family: Seq<char>) -> Seq<char> {
    "expected deepseek4 vindex at "@ + dir + ", got "@ + family
}

/// The message for a vindex of another family.
pub fn family_message(dir: &str, family: &str) -> (t: String)
    ensures
        t@ == family_text(dir@, family@),
{
    let mut t: String = String::from_str("expected deepseek4 vindex at ");
    t.append(dir);
    t.append(", got ");
    t.append(family);
    t
}

/// The vindex is one of a DeepSeek V4 model. `dir` is how the directory is written
/// in the message.
pub fn check_family(cfg: &VindexConfig, dir: &str) -> (r: Result<(), Dsv4LoadError>)
    ensures
        if cfg.family() == "deepseek4"@ {
            r is Ok
        } else {
            r is Err && r->Err_0@ == LoadFault::Parse(family_text(dir@, quoted(cfg.family())))
        },
{
    let family: String = match &cfg.model_config {
        Some(c) => copy_text(c.model_type.as_str()),
        None => {
            proof {
                reveal_strlit("");
                assert(""@ =~= Seq::empty());
            }
            copy_text("")
        },
    };
    if same_text(&family, "deepseek4") {
        Ok(())
    } else {
        let written: String = quoted_text(family.as_str());
        Err(Dsv4LoadError::Parse(family_message(dir, written.as_str())))
    }
}

/// The message for an embedding of another shape.
pub open spec fn embed_text(shape: (usize, usize), vocab: usize, hidden: usize) -> Seq<char> {
    "embed shape ["@ + decimal(shape.0 as nat) + ", "@ + decimal(shape.1 as nat)
        + "] mismatches vocab "@ + decimal(vocab as nat) + " × hidden "@ + decimal(hidden as nat)
}

/// The embedding has a row for every token and a column for every dimension.
pub fn check_embed(cfg: &VindexConfig, shape: (usize, usize)) -> (r: Result<(), Dsv4LoadError>)
    ensures
        if shape == (cfg.vocab_size, cfg.hidden_size) {
            r is Ok
        } else {
            r is Err && r->Err_0@ == LoadFault::Parse(
                embed_text(shape, cfg.vocab_size, cfg.hidden_size),
            )
        },
{
    if shape.0 == cfg.vocab_size && shape.1 == cfg.hidden_size {
        return Ok(());
    }
    let mut t: String = String::from_str("embed shape [");
    let a: String = decimal_text(shape.0 as u64);
    t.append(a.as_str());
    t.append(", ");
    let b: String = decimal_text(shape.1 as u64);
    t.append(b.as_str());
    t.append("] mismatches vocab ");
    let c: String = decimal_text(cfg.vocab_size as u64);
    t.append(c.as_str());
    t.append(" × hidden ");
    let d: String = decimal_text(cfg.hidden_size as u64);
    t.append(d.as_str());
    Err(Dsv4LoadError::Parse(t))
}

/// One layer's weights.
pub struct LayerPlan {
    pub attn: AttnPlan,
    pub moe: MoePlan,
}

/// One layer's weights, or the first lookup that fails: first the attention's,
/// then the experts'.
pub open spec fn layer_plan(
    files: VindexFiles,
    experts: Seq<ExpertFile>,
    dims: Dsv4Dims,
    layer: int,
) -> Result<(AttnPlanModel, MoePlanModel), LoadFault> {
    match attn_plan(files, layer as usize, dims) {
        Err(f) => Err(f),
        Ok(a) => match moe_plan(files, layer as usize, dims, experts[layer]) {
            Err(f) => Err(f),
            Ok(m) => Ok((a, m)),
        },
    }
}

/// The failure of the first layer that fails, among the first `n`.
pub open spec fn layers_fault(
    files: VindexFiles,
    experts: Seq<ExpertFile>,
    dims: Dsv4Dims,
    n: nat,
) -> Option<LoadFault>
    decreases n,
{
    if n == 0 {
        None
    } else {
        match layers_fault(files, experts, dims, (n - 1) as nat) {
            Some(f) => Some(f),
            None => match layer_plan(files, experts, dims, n - 1) {
                Err(f) => Some(f),
                Ok(_) => None,
            },
        }
    }
}

/// A whole model: its layers, the final norm and the output head.
pub struct ModelPlan {
    pub layers: Vec<LayerPlan>,
    pub final_norm: Vec<u32>,
    pub lm_head: TensorRegion,
}

/// What the lookups of a layer may rely on: those of the experts where those of the
/// attention found what they looked for.
#[verifier::opaque]
pub open spec fn layer_allowed(
    files: VindexFiles,
    experts: Seq<ExpertFile>,
    dims: Dsv4Dims,
    l: int,
) -> bool {
    &&& attn_entries_allowed(files.mla@, l as usize)
    &&& attn_plan(files, l as usize, dims) is Ok ==> moe_entries_allowed(
        files,
        l as usize,
        dims,
        experts[l],
    )
}

/// What the lookups of every layer that is come to may rely on.
pub open spec fn layers_allowed(
    files: VindexFiles,
    experts: Seq<ExpertFile>,
    dims: Dsv4Dims,
) -> bool {
    forall|l: int|
        0 <= l < experts.len() && layers_fault(files, experts, dims, l as nat) is None
            ==> #[trigger] layer_allowed(files, experts, dims, l)
}

/// Whether a layer loads; nothing where its lookups cannot be made.
fn layer_loads(files: &VindexFiles, experts: &Vec<ExpertFile>, dims: &Dsv4Dims, l: usize) -> (r:
    Option<bool>)
    requires
        l < experts@.len(),
    ensures
        r is Some == layer_allowed(*files, experts@, *dims, l as int),
        r matches Some(ok) ==> ok == (layer_plan(*files, experts@, *dims, l as int) is Ok),
{
    let ghost k = l as int;
    proof {
        reveal(layer_allowed);
        assert(k as usize == l);
    }
    if !attn_readable(&files.mla, l) {
        return None;
    }
    if build_attn_weights(files, l, dims).is_err() {
        return Some(false);
    }
    if !moe_readable(files, l, dims, &experts[l]) {
        return None;
    }
    Some(build_moe_weights(files, l, dims, &experts[l]).is_ok())
}

/// Whether the lookups of every layer that is come to can be made.
pub fn layers_readable(files: &VindexFiles, experts: &Vec<ExpertFile>, dims: &Dsv4Dims) -> (r: bool)
    ensures
        r == layers_allowed(*files, experts@, *dims),
{
    let n: usize = experts.len();
    let mut l: usize = 0;
    while l < n
        invariant
            l <= n,
            n == experts@.len(),
            layers_fault(*files, experts@, *dims, l as nat) is None,
            forall|i: int| 0 <= i < l ==> #[trigger] layer_allowed(*files, experts@, *dims, i),
        decreases n - l,
    {
        match layer_loads(files, experts, dims, l) {
            None => {
                assert(!layer_allowed(*files, experts@, *dims, l as int));
                return false;
            },
            Some(true) => {
                l += 1;
            },
            Some(false) => {
                proof {
                    assert(layers_fault(*files, experts@, *dims, (l + 1) as nat) is Some);
                    assert forall|i: int|
                        0 <= i < n && layers_fault(*files, experts@, *dims, i as nat) is None implies
                        #[trigger] layer_allowed(*files, experts@, *dims, i) by {
                        if i > l {
                            lemma_fault_stays(*files, experts@, *dims, (l + 1) as nat, i as nat);
                        }
                    }
                }
                return true;
            },
        }
    }
    true
}

/// A whole model's weights: one layer for every expert file, then the final
/// norm. The first lookup that fails, layer by layer, ends it.
pub fn load_dsv4_weights_from_vindex(
    files: &VindexFiles,
    experts: &Vec<ExpertFile>,
    dims: &Dsv4Dims,
) -> (r: Result<ModelPlan, Dsv4LoadError>)
    requires
        layers_allowed(*files, experts@, *dims),
        first_lm_head(files.weights@) is None ==> dims.vocab * dims.hidden <= usize::MAX,
    ensures
        match layers_fault(*files, experts@, *dims, experts@.len()) {
            Some(f) => r is Err && r->Err_0@ == f,
            None => match norm_words(files.norms_bytes@, files.weights@, "norm.weight"@) {
                Err(f) => r is Err && r->Err_0@ == f,
                Ok(norm) => {
                    &&& r is Ok
                    &&& r->Ok_0.final_norm@ == norm
                    &&& r->Ok_0.lm_head == lm_head_region(files.weights@, dims.vocab, dims.hidden)
                    &&& r->Ok_0.layers@.len() == experts@.len()
                    &&& forall|l: int|
                        0 <= l < experts@.len() ==> layer_plan(*files, experts@, *dims, l) == Ok::<
                            (AttnPlanModel, MoePlanModel),
                            LoadFault,
                        >(((#[trigger] r->Ok_0.layers@[l]).attn@, r->Ok_0.layers@[l].moe@))
                },
            },
        },
{
    let lm_head: TensorRegion = find_lm_head_descriptor(&files.weights, dims.vocab, dims.hidden);
    let n: usize = experts.len();
    let mut layers: Vec<LayerPlan> = Vec::new();
    let mut l: usize = 0;
    while l < n
        invariant
            l <= n,
            n == experts@.len(),
            layers_allowed(*files, experts@, *dims),
            layers_fault(*files, experts@, *dims, l as nat) is None,
            layers@.len() == l,
            forall|i: int|
                0 <= i < l ==> layer_plan(*files, experts@, *dims, i) == Ok::<
                    (AttnPlanModel, MoePlanModel),
                    LoadFault,
                >(((#[trigger] layers@[i]).attn@, layers@[i].moe@)),
        decreases n - l,
    {
        let ghost k = l as int;
        assert(k as usize == l);
        proof {
            reveal(layer_allowed);
            assert(layer_allowed(*files, experts@, *dims, k));
        }
        let attn: AttnPlan = match build_attn_weights(files, l, dims) {
            Ok(a) => a,
            Err(e) => {
                proof {
                    lemma_fault_stays(*files, experts@, *dims, (l + 1) as nat, n as nat);
                }
                return Err(e);
            },
        };
        let moe: MoePlan = match build_moe_weights(files, l, dims, &experts[l]) {
            Ok(m) => m,
            Err(e) => {
                proof {
                    lemma_fault_stays(*files, experts@, *dims, (l + 1) as nat, n as nat);
                }
                return Err(e);
            },
        };
        layers.push(LayerPlan { attn, moe });
        l += 1;
    }
    let key: String = copy_text("norm.weight");
    match find_norm_vector(files.norms_bytes, &files.weights, &key) {
        Ok(final_norm) => Ok(ModelPlan { layers, final_norm, lm_head }),
        Err(e) => Err(e),
    }
}

/// A failure among the first layers is the failure of all.
proof fn lemma_fault_stays(
    files: VindexFiles,
    experts: Seq<ExpertFile>,
    dims: Dsv4Dims,
    a: nat,
    b: nat,
)
    requires
        a <= b,
        layers_fault(files, experts, dims, a) is Some,
    ensures
        layers_fault(files, experts, dims, b) == layers_fault(files, experts, dims, a),
    decreases b,
{
    if a < b {
        lemma_fault_stays(files, experts, dims, a, (b - 1) as nat);
    }
}

// ---- generating ------------------------------------------------------------

/// What comes of one draw: a token with whether it ends the text, or none.
#[derive(Clone, Copy, Debug, PartialEq, Eq, Structural)]
pub enum Draw {
    Token { id: u32, is_eos: bool },
    Nothing,
}

/// What to do after a draw.
#[derive(Clone, Copy, Debug, PartialEq, Eq, Structural)]
pub enum GenStep {
    /// Run the model on the token that was drawn.
    Forward(u32),
    /// The text is complete.
    Stop,
}

/// The tokens that a series of draws yields: those before the first that yields
/// none or ends the text, and at most `max`.
pub open spec fn kept_tokens(draws: Seq<Draw>, max: nat) -> Seq<u32>
    decreases draws.len(),
{
    if draws.len() == 0 || max == 0 {
        Seq::empty()
    } else {
        match draws[0] {
            Draw::Token { id, is_eos } => if is_eos {
                Seq::empty()
            } else {
                seq![id] + kept_tokens(draws.skip(1), (max - 1) as nat)
            },
            Draw::Nothing => Seq::empty(),
        }
    }
}

/// The message for an empty prompt.
pub open spec fn empty_prompt_text() -> Seq<char> {
    "prompt_ids is empty"@
}

/// A generation in progress.
pub struct Generation {
    generated: Vec<u32>,
    max_tokens: usize,
    done: bool,
}

impl Generation {
    /// The tokens so far.
    pub closed spec fn tokens(&self) -> Seq<u32> {
        self.generated@
    }

    /// How many tokens may come.
    pub closed spec fn limit(&self) -> nat {
        self.max_tokens as nat
    }

    /// Nothing more is drawn.
    pub closed spec fn finished(&self) -> bool {
        self.done
    }

    /// No more tokens than allowed, and where there are as many nothing more is
    /// drawn.
    pub closed spec fn wf(&self) -> bool {
        self.generated@.len() <= self.max_tokens && (self.generated@.len() == self.max_tokens
            ==> self.done)
    }

    /// Starts a generation behind a prompt, which must not be empty.
    pub fn start(prompt_len: usize, max_tokens: usize) -> (r: Result<Self, String>)
        ensures
            if prompt_len == 0 {
                r is Err && r->Err_0@ == empty_prompt_text()
            } else {
                &&& r is Ok
                &&& r->Ok_0.wf()
                &&& r->Ok_0.tokens() == Seq::<u32>::empty()
                &&& r->Ok_0.limit() == max_tokens
                &&& r->Ok_0.finished() == (max_tokens == 0)
            },
    {
        if prompt_len == 0 {
            return Err(copy_text("prompt_ids is empty"));
        }
        Ok(Generation { generated: Vec::new(), max_tokens, done: max_tokens == 0 })
    }

    /// Takes a draw. A token that does not end the text is kept and the model
    /// runs on it, also behind the last one.
    pub fn offer(&mut self, draw: Draw) -> (step: GenStep)
        requires
            old(self).wf(),
            !old(self).finished(),
        ensures
            final(self).wf(),
            final(self).limit() == old(self).limit(),
            match draw {
                Draw::Token { id, is_eos } => if is_eos {
                    step == GenStep::Stop && final(self).finished() && final(self).tokens()
                        == old(self).tokens()
                } else {
                    &&& step == GenStep::Forward(id)
                    &&& final(self).tokens() == old(self).tokens().push(id)
                    &&& final(self).finished() == (final(self).tokens().len()
                        == final(self).limit())
                },
                Draw::Nothing => step == GenStep::Stop && final(self).finished()
                    && final(self).tokens() == old(self).tokens(),
            },
    {
        match draw {
            Draw::Token { id, is_eos } => {
                if is_eos {
                    self.done = true;
                    return GenStep::Stop;
                }
                self.generated.push(id);
                self.done = self.generated.len() == self.max_tokens;
                GenStep::Forward(id)
            },
            Draw::Nothing => {
                self.done = true;
                GenStep::Stop
            },
        }
    }

    /// Whether nothing more is drawn.
    pub fn is_finished(&self) -> (r: bool)
        ensures
            r == self.finished(),
    {
        self.done
    }

    /// The tokens.
    pub fn into_tokens(self) -> (t: Vec<u32>)
        ensures
            t@ == self.tokens(),
    {
        self.generated
    }
}

/// The tokens that a series of draws yields.
pub fn dsv4_generate_with_sampling(
    prompt_ids: &[u32],
    max_tokens: usize,
    draws: &[Draw],
) -> (r: Result<Vec<u32>, String>)
    ensures
        if prompt_ids@.len() == 0 {
            r is Err && r->Err_0@ == empty_prompt_text()
        } else {
            r is Ok && r->Ok_0@ == kept_tokens(draws@, max_tokens as nat)
        },
{
    let mut g: Generation = match Generation::start(prompt_ids.len(), max_tokens) {
        Ok(g) => g,
        Err(e) => return Err(e),
    };
    let mut i: usize = 0;
    assert(draws@.skip(0) =~= draws@);
    assert(g.tokens() + kept_tokens(draws@, max_tokens as nat) =~= kept_tokens(
        draws@,
        max_tokens as nat,
    ));
    while i < draws.len() && !g.is_finished()
        invariant
            i <= draws@.len(),
            g.wf(),
            g.limit() == max_tokens,
            g.tokens().len() <= max_tokens,
            g.finished() ==> g.tokens() == kept_tokens(draws@, max_tokens as nat),
            !g.finished() ==> g.tokens().len() < max_tokens && g.tokens() + kept_tokens(
                draws@.skip(i as int),
                (max_tokens - g.tokens().len()) as nat,
            ) == kept_tokens(draws@, max_tokens as nat),
        decreases draws@.len() - i,
    {
        let ghost before = g.tokens();
        let ghost left = draws@.skip(i as int);
        let ghost room = (max_tokens - before.len()) as nat;
        assert(left.skip(1) =~= draws@.skip(i + 1));
        let step: GenStep = g.offer(draws[i]);
        i += 1;
        proof {
            match draws@[i - 1] {
                Draw::Token { id, is_eos } => {
                    if !is_eos {
                        let rest = kept_tokens(left.skip(1), (room - 1) as nat);
                        assert(before + (seq![id] + rest) =~= before.push(id) + rest);
                        if g.finished() {
                            assert(rest =~= Seq::<u32>::empty());
                        }
                    } else {
                        assert(before + Seq::<u32>::empty() =~= before);
                    }
                },
                Draw::Nothing => {
                    assert(before + Seq::<u32>::empty() =~= before);
                },
            }
        }
    }
    proof {
        if !g.finished() {
            assert(draws@.skip(i as int) =~= Seq::<Draw>::empty());
            assert(g.tokens() + Seq::<u32>::empty() =~= g.tokens());
        }
    }
    Ok(g.into_tokens())
}

/// No more tokens come than were asked for, and never more than were drawn.
pub proof fn law_generation_is_bounded(draws: Seq<Draw>, max: nat)
    ensures
        kept_tokens(draws, max).len() <= max,
        kept_tokens(draws, max).len() <= draws.len(),
    decreases draws.len(),
{
    if draws.len() > 0 && max > 0 {
        law_generation_is_bounded(draws.skip(1), (max - 1) as nat);
    }
}

/// No kept token is one that ended the text.
pub proof fn law_kept_tokens_were_drawn(draws: Seq<Draw>, max: nat, i: int)
    requires
        0 <= i < kept_tokens(draws, max).len(),
    ensures
        i < draws.len(),
        draws[i] == (Draw::Token { id: kept_tokens(draws, max)[i], is_eos: false }),
    decreases draws.len(),
{
    if i > 0 {
        law_kept_tokens_were_drawn(draws.skip(1), (max - 1) as nat, i - 1);
    }
}

/// The sizes of a configured model: what the configuration gives, and where it gives
/// nothing the model's own; ranks, the output's inner width and the rotated part are
/// always the model's own.
pub proof fn law_configured_sizes(cfg: VindexConfig)
    ensures
        ({
            let d = dims_of(cfg);
            &&& d.hidden == cfg.hidden_size && d.vocab == cfg.vocab_size
            &&& d.q_lora_rank == 1024 && d.kv_lora_rank == 512
            &&& d.output_intermediate == 8192 && d.rope_dim == 64
            &&& d.norm_eps == 0x3586_37BD && d.expert_weights_scale == 0x3FC0_0000
            &&& cfg.model_config is None ==> d.n_heads == 64 && d.head_dim == 512 && d.rope_base
                == 0x40C3_8800_0000_0000
            &&& cfg.model_config matches Some(c) ==> d.n_heads == c.num_q_heads && d.head_dim
                == c.head_dim && d.rope_base == c.rope_base
            &&& cfg.model_config is None || cfg.model_config->Some_0.moe is None ==> d.ffn_dim
                == 2048 && d.num_experts == 256 && d.experts_per_token == 6
                && d.num_shared_experts == 1
            &&& cfg.model_config matches Some(c) ==> (c.moe matches Some(m) ==> {
                &&& d.num_experts == m.num_experts && d.experts_per_token == m.top_k
                &&& m.shared_expert ==> d.num_shared_experts == 1
                &&& !m.shared_expert ==> d.num_shared_experts == 0
                &&& m.moe_intermediate_size matches Some(n) ==> d.ffn_dim == n
                &&& m.moe_intermediate_size is None ==> d.ffn_dim == 2048
            })
        }),
{
}

/// The sizes that a model's weights show: rows and columns of the matrices that have
/// them, with 64 heads, six experts for a token and one shared expert.
pub proof fn law_shown_sizes(s: WeightShapes)
    ensures
        ({
            let d = shown_dims(s);
            &&& d.vocab == s.embed.0 && d.hidden == s.embed.1
            &&& d.q_lora_rank == s.q_a.0 && d.kv_lora_rank == s.kv.0
            &&& d.n_heads == 64 && d.head_dim * 64 <= s.q_b.0 < (d.head_dim + 1) * 64
            &&& d.output_intermediate == s.output_a.0 && d.ffn_dim == s.shared_down.1
            &&& d.num_experts == s.num_experts && d.experts_per_token == 6
            &&& d.num_shared_experts == 1 && d.rope_dim == 64
            &&& d.norm_eps == 0x3586_37BD && d.expert_weights_scale == 0x3FC0_0000
            &&& d.rope_base == 0x40C3_8800_0000_0000
        }),
{
}

/// A layer's plan is its attention and its experts, both by the layer's own number,
/// with the layer's own expert file; the fault of attention comes first.
pub proof fn law_layer_plan(
    files: VindexFiles,
    experts: Seq<ExpertFile>,
    dims: Dsv4Dims,
    layer: int,
)
    requires
        0 <= layer < experts.len(),
    ensures
        ({
            let a = attn_plan(files, layer as usize, dims);
            let m = moe_plan(files, layer as usize, dims, experts[layer]);
            let p = layer_plan(files, experts, dims, layer);
            &&& p is Ok <==> a is Ok && m is Ok
            &&& p matches Ok((x, y)) ==> x == a->Ok_0 && y == m->Ok_0
            &&& a matches Err(f) ==> p == Err::<(AttnPlanModel, MoePlanModel), LoadFault>(f)
            &&& a is Ok && m is Err ==> p == Err::<(AttnPlanModel, MoePlanModel), LoadFault>(
                m->Err_0,
            )
        }),
{
}

/// The fault of some layers is that of the first one that cannot be read.
pub proof fn law_first_unreadable_layer(
    files: VindexFiles,
    experts: Seq<ExpertFile>,
    dims: Dsv4Dims,
    n: nat,
)
    ensures
        match layers_fault(files, experts, dims, n) {
            None => forall|l: int|
                0 <= l < n ==> (#[trigger] layer_plan(files, experts, dims, l)) is Ok,
            Some(f) => exists|k: int|
                {
                    &&& 0 <= k < n
                    &&& #[trigger] layer_plan(files, experts, dims, k) == Err::<
                        (AttnPlanModel, MoePlanModel),
                        LoadFault,
                    >(f)
                    &&& forall|l: int|
                        0 <= l < k ==> (#[trigger] layer_plan(files, experts, dims, l)) is Ok
                },
        },
    decreases n,
{
    if n > 0 {
        law_first_unreadable_layer(files, experts, dims, (n - 1) as nat);
        let last = layer_plan(files, experts, dims, n - 1);
    }
}

/// Tokens are kept as long as they are drawn, do not end the text and there is room:
/// where fewer are kept than there was room and draws for, the next draw was nothing
/// or ended the text.
pub proof fn law_short_text_was_ended(draws: Seq<Draw>, max: nat)
    ensures
        ({
            let n = kept_tokens(draws, max).len();
            n < max && n < draws.len() ==> draws[n as int] is Nothing || (draws[n as int] matches
                Draw::Token { id, is_eos } && is_eos)
        }),
    decreases draws.len(),
{
    if draws.len() > 0 && max > 0 {
        if draws[0] matches Draw::Token { id, is_eos } && !is_eos {
            let rest = draws.skip(1);
            law_short_text_was_ended(rest, (max - 1) as nat);
            let n = kept_tokens(rest, (max - 1) as nat).len();
            if n < rest.len() {
                assert(rest[n as int] == draws[n as int + 1]);
            }
        }
    }
}

/// What the errors of a model's files say.
pub proof fn law_model_error_texts(
    dir: Seq<char>,
    family: Seq<char>,
    shape: (usize, usize),
    vocab: usize,
    hidden: usize,
)
    ensures
        family_text(dir, family) == "expected deepseek4 vindex at "@ + dir + ", got "@ + family,
        embed_text(shape, vocab, hidden) == "embed shape ["@ + decimal(shape.0 as nat) + ", "@
            + decimal(shape.1 as nat) + "] mismatches vocab "@ + decimal(vocab as nat)
            + " × hidden "@ + decimal(hidden as nat),
        empty_prompt_text() == "prompt_ids is empty"@,
{
}

/// The family of a model is what its configuration names, and nothing without one.
pub proof fn law_family_of_a_model(cfg: VindexConfig)
    ensures
        cfg.model_config matches Some(c) ==> cfg.family() == c.model_type@,
        cfg.model_config is None ==> cfg.family().len() == 0,
        cfg.model_config matches Some(c) ==> cfg.moe() == c.moe,
        cfg.model_config is None ==> cfg.moe() is None,
{
}

} // verus!
