//! Typed weights of the hybrid model out of tables of named tensors.
//!
//! Every layer's tensors are looked up by the names that its architecture gives
//! them, in a fixed order; the first name that is missing, or names nothing, is
//! the error.
use vstd::prelude::*;
use vstd::string::*;
use crate::keyed::Table;
use crate::tensor::{transposed, Matrix};
use crate::text::{copy_text, decimal, decimal_text};

verus! {

/// Why the weights could not be loaded.
#[derive(Debug)]
pub enum Qwen35LoadError {
    MissingTensor(String),
    MissingVector(String),
    NoKey { layer: usize, method: &'static str, kind: &'static str },
    NotHybrid { field: &'static str },
}

/// What a [`Qwen35LoadError`] stands for.
pub enum HybridFault {
    MissingTensor(Seq<char>),
    MissingVector(Seq<char>),
    NoKey { layer: usize, method: &'static str, kind: &'static str },
    NotHybrid { field: &'static str },
}

impl View for Qwen35LoadError {
    type V = HybridFault;

    open spec fn view(&self) -> HybridFault {
        match self {
            Qwen35LoadError::MissingTensor(k) => HybridFault::MissingTensor(k@),
            Qwen35LoadError::MissingVector(k) => HybridFault::MissingVector(k@),
            Qwen35LoadError::NoKey { layer, method, kind } => HybridFault::NoKey {
                layer: *layer,
                method: *method,
                kind: *kind,
            },
            Qwen35LoadError::NotHybrid { field } => HybridFault::NotHybrid { field: *field },
        }
    }
}

impl HybridFault {
    /// The text of the message.
    pub open spec fn text(self) -> Seq<char> {
        match self {
            HybridFault::MissingTensor(k) => "missing 2-D tensor: "@ + k,
            HybridFault::MissingVector(k) => "missing 1-D tensor (in `vectors` map): "@ + k,
            HybridFault::NoKey { layer, method, kind } => {
                "architecture method returned None for required key on layer "@ + decimal(
                    layer as nat,
                ) + ": "@ + method@ + "; is this layer really "@ + kind@ + "?"@
            },
            HybridFault::NotHybrid { field } => "architecture is not hybrid Qwen 3.6 — "@ + field@
                + " is 0. Did you pass a Qwen35Arch or Qwen35MoeArch?"@,
        }
    }
}

impl Qwen35LoadError {
    /// The message for a reader.
    pub fn message(&self) -> (t: String)
        ensures
            t@ == self@.text(),
    {
        match self {
            Qwen35LoadError::MissingTensor(k) => {
                let mut t: String = String::from_str("missing 2-D tensor: ");
                t.append(k.as_str());
                t
            },
            Qwen35LoadError::MissingVector(k) => {
                let mut t: String = String::from_str("missing 1-D tensor (in `vectors` map): ");
                t.append(k.as_str());
                t
            },
            Qwen35LoadError::NoKey { layer, method, kind } => {
                let mut t: String = String::from_str(
                    "architecture method returned None for required key on layer ",
                );
                let n: String = decimal_text(*layer as u64);
                t.append(n.as_str());
                t.append(": ");
                t.append(method);
                t.append("; is this layer really ");
                t.append(kind);
                t.append("?");
                t
            },
            Qwen35LoadError::NotHybrid { field } => {
                let mut t: String = String::from_str("architecture is not hybrid Qwen 3.6 — ");
                t.append(field);
                t.append(" is 0. Did you pass a Qwen35Arch or Qwen35MoeArch?");
                t
            },
        }
    }
}

/// A model's tensors: by name, and the embedding and the head.
pub struct WeightTables {
    pub tensors: Table<Matrix>,
    pub vectors: Table<Vec<u32>>,
    pub embed: Matrix,
    pub lm_head: Matrix,
}

impl WeightTables {
    /// No tensor has the name of another, and no vector either.
    pub open spec fn wf(&self) -> bool {
        self.tensors.wf() && self.vectors.wf()
    }

    /// Tables without a tensor of a name.
    pub fn new(embed: Matrix, lm_head: Matrix) -> (w: Self)
        ensures
            w.wf(),
            w.tensors@ == Map::<Seq<char>, Matrix>::empty(),
            w.vectors@ == Map::<Seq<char>, Vec<u32>>::empty(),
            w.embed == embed,
            w.lm_head == lm_head,
    {
        WeightTables { tensors: Table::new(), vectors: Table::new(), embed, lm_head }
    }
}

/// The names of a layer's tensors, as its architecture gives them. A name that
/// an architecture does not have is `None`.
pub struct LayerKeys {
    pub is_linear: bool,
    pub input_layernorm: String,
    pub post_attention_layernorm: String,
    pub ffn_gate: String,
    pub ffn_up: String,
    pub ffn_down: String,
    pub attn_q: String,
    pub attn_k: String,
    pub attn_v: String,
    pub attn_o: String,
    pub attn_q_per_head_norm: Option<String>,
    pub attn_k_per_head_norm: Option<String>,
    pub attn_qkv: Option<String>,
    pub attn_gate: Option<String>,
    pub ssm_conv1d: Option<String>,
    pub ssm_dt: Option<String>,
    pub ssm_a: Option<String>,
    pub ssm_beta: Option<String>,
    pub ssm_alpha: Option<String>,
    pub ssm_norm: Option<String>,
    pub ssm_out: Option<String>,
}

/// What an architecture says of a model.
pub struct HybridArch {
    pub full_attention_interval: usize,
    pub ssm_state_size: usize,
    pub intermediate_size: usize,
    pub layers: Vec<LayerKeys>,
    pub final_norm: String,
}

/// The name, where the architecture has one.
pub fn require_key(
    opt: Option<String>,
    layer: usize,
    method: &'static str,
    kind: &'static str,
) -> (r: Result<String, Qwen35LoadError>)
    ensures
        r == (match opt {
            Some(k) => Ok::<String, Qwen35LoadError>(k),
            None => Err(Qwen35LoadError::NoKey { layer, method, kind }),
        }),
{
    match opt {
        Some(k) => Ok(k),
        None => Err(Qwen35LoadError::NoKey { layer, method, kind }),
    }
}

/// The matrix of a name.
pub fn get_tensor<'a>(weights: &'a WeightTables, key: &String) -> (r: Result<
    &'a Matrix,
    Qwen35LoadError,
>)
    ensures
        match weights.tensors.find(key@) {
            Some(m) => r is Ok && *r->Ok_0 == m,
            None => r is Err && r->Err_0@ == HybridFault::MissingTensor(key@),
        },
{
    match weights.tensors.get(key) {
        Some(m) => Ok(m),
        None => Err(Qwen35LoadError::MissingTensor(copy_text(key.as_str()))),
    }
}

/// The vector of a name.
pub fn get_vec<'a>(weights: &'a WeightTables, key: &String) -> (r: Result<
    &'a Vec<u32>,
    Qwen35LoadError,
>)
    ensures
        match weights.vectors.find(key@) {
            Some(v) => r is Ok && *r->Ok_0 == v,
            None => r is Err && r->Err_0@ == HybridFault::MissingVector(key@),
        },
{
    match weights.vectors.get(key) {
        Some(v) => Ok(v),
        None => Err(Qwen35LoadError::MissingVector(copy_text(key.as_str()))),
    }
}

// ---- lookups in order ------------------------------------------------------

/// One lookup of a layer: a vector or a matrix, by a name that the architecture
/// always has or one that it may not have.
pub enum Lookup {
    Vector(Seq<char>),
    Tensor(Seq<char>),
    KeyedVector(Option<Seq<char>>, &'static str, &'static str),
    KeyedTensor(Option<Seq<char>>, &'static str, &'static str),
}

/// Why a lookup fails, if it does.
pub open spec fn lookup_fault(w: WeightTables, layer: usize, l: Lookup) -> Option<HybridFault> {
    match l {
        Lookup::Vector(k) => if w.vectors.find(k) is Some {
            None
        } else {
            Some(HybridFault::MissingVector(k))
        },
        Lookup::Tensor(k) => if w.tensors.find(k) is Some {
            None
        } else {
            Some(HybridFault::MissingTensor(k))
        },
        Lookup::KeyedVector(key, method, kind) => match key {
            None => Some(HybridFault::NoKey { layer, method, kind }),
            Some(k) => if w.vectors.find(k) is Some {
                None
            } else {
                Some(HybridFault::MissingVector(k))
            },
        },
        Lookup::KeyedTensor(key, method, kind) => match key {
            None => Some(HybridFault::NoKey { layer, method, kind }),
            Some(k) => if w.tensors.find(k) is Some {
                None
            } else {
                Some(HybridFault::MissingTensor(k))
            },
        },
    }
}

/// Why the first failing lookup of a list fails.
pub open spec fn lookups_fault(w: WeightTables, layer: usize, s: Seq<Lookup>) -> Option<
    HybridFault,
>
    decreases s.len(),
{
    if s.len() == 0 {
        None
    } else {
        match lookups_fault(w, layer, s.drop_last()) {
            Some(f) => Some(f),
            None => lookup_fault(w, layer, s.last()),
        }
    }
}

/// The text of an optional name.
pub open spec fn key_text(k: Option<String>) -> Option<Seq<char>> {
    match k {
        Some(t) => Some(t@),
        None => None,
    }
}

/// The lookups of a linear layer.
pub open spec fn linear_lookups(k: LayerKeys) -> Seq<Lookup> {
    seq![
        Lookup::Vector(k.input_layernorm@),
        Lookup::KeyedTensor(key_text(k.attn_qkv), "attn_qkv_key", "linear"),
        Lookup::KeyedTensor(key_text(k.attn_gate), "attn_gate_key", "linear"),
        Lookup::KeyedTensor(key_text(k.ssm_conv1d), "ssm_conv1d_key", "linear"),
        Lookup::KeyedVector(key_text(k.ssm_dt), "ssm_dt_key", "linear"),
        Lookup::KeyedVector(key_text(k.ssm_a), "ssm_a_key", "linear"),
        Lookup::KeyedTensor(key_text(k.ssm_beta), "ssm_beta_key", "linear"),
        Lookup::KeyedTensor(key_text(k.ssm_alpha), "ssm_alpha_key", "linear"),
        Lookup::KeyedVector(key_text(k.ssm_norm), "ssm_norm_key", "linear"),
        Lookup::KeyedTensor(key_text(k.ssm_out), "ssm_out_key", "linear"),
    ]
}

/// The lookups of a softmax layer.
pub open spec fn attention_lookups(k: LayerKeys) -> Seq<Lookup> {
    seq![
        Lookup::Vector(k.input_layernorm@),
        Lookup::Tensor(k.attn_q@),
        Lookup::Tensor(k.attn_k@),
        Lookup::Tensor(k.attn_v@),
        Lookup::Tensor(k.attn_o@),
        Lookup::KeyedVector(
            key_text(k.attn_q_per_head_norm),
            "attn_q_per_head_norm_key",
            "full-attn",
        ),
        Lookup::KeyedVector(
            key_text(k.attn_k_per_head_norm),
            "attn_k_per_head_norm_key",
            "full-attn",
        ),
    ]
}

/// The lookups behind a layer's block.
pub open spec fn suffix_lookups(k: LayerKeys) -> Seq<Lookup> {
    seq![
        Lookup::Vector(k.post_attention_layernorm@),
        Lookup::Tensor(k.ffn_gate@),
        Lookup::Tensor(k.ffn_up@),
        Lookup::Tensor(k.ffn_down@),
    ]
}

/// The lookups of a layer's block.
pub open spec fn block_lookups(k: LayerKeys) -> Seq<Lookup> {
    if k.is_linear {
        linear_lookups(k)
    } else {
        attention_lookups(k)
    }
}

/// Why a layer does not load, if it does not: its block comes first.
pub open spec fn layer_fault(w: WeightTables, layer: usize, k: LayerKeys) -> Option<HybridFault> {
    match lookups_fault(w, layer, block_lookups(k)) {
        Some(f) => Some(f),
        None => lookups_fault(w, layer, suffix_lookups(k)),
    }
}

/// Why the first of the first `n` layers that does not load fails.
pub open spec fn layers_fault(w: WeightTables, keys: Seq<LayerKeys>, n: nat) -> Option<HybridFault>
    decreases n,
{
    if n == 0 {
        None
    } else {
        match layers_fault(w, keys, (n - 1) as nat) {
            Some(f) => Some(f),
            None => layer_fault(w, (n - 1) as usize, keys[n - 1]),
        }
    }
}

/// Why a model does not load, if it does not: it must be hybrid, every layer
/// must load, and the final norm must be there.
pub open spec fn load_fault(w: WeightTables, arch: HybridArch) -> Option<HybridFault> {
    if arch.full_attention_interval == 0 {
        Some(HybridFault::NotHybrid { field: "full_attention_interval" })
    } else if arch.ssm_state_size == 0 {
        Some(HybridFault::NotHybrid { field: "ssm_state_size" })
    } else {
        match layers_fault(w, arch.layers@, arch.layers@.len()) {
            Some(f) => Some(f),
            None => lookup_fault(w, 0, Lookup::Vector(arch.final_norm@)),
        }
    }
}

// ---- typed weights ---------------------------------------------------------

/// A linear layer's weights. The convolution's are turned over: stored by
/// channel, used by tap.
pub struct DeltaNetLayerWeights<'a> {
    pub attn_norm: &'a Vec<u32>,
    pub attn_qkv: &'a Matrix,
    pub attn_gate: &'a Matrix,
    pub ssm_conv1d: Matrix,
    pub ssm_dt: &'a Vec<u32>,
    pub ssm_a: &'a Vec<u32>,
    pub ssm_beta: &'a Matrix,
    pub ssm_alpha: &'a Matrix,
    pub ssm_norm: &'a Vec<u32>,
    pub ssm_out: &'a Matrix,
}

/// A softmax layer's weights.
pub struct Qwen35AttentionLayerWeights<'a> {
    pub attn_norm: &'a Vec<u32>,
    pub attn_q: &'a Matrix,
    pub attn_k: &'a Matrix,
    pub attn_v: &'a Matrix,
    pub attn_q_norm: &'a Vec<u32>,
    pub attn_k_norm: &'a Vec<u32>,
    pub attn_output: &'a Matrix,
}

/// A layer's block weights.
pub enum Qwen35LayerWeights<'a> {
    Linear(DeltaNetLayerWeights<'a>),
    Attention(Qwen35AttentionLayerWeights<'a>),
}

/// A layer's weights.
pub struct Qwen35FullLayerWeights<'a> {
    pub block: Qwen35LayerWeights<'a>,
    pub attn_post_norm: &'a Vec<u32>,
    pub ffn_gate: &'a Matrix,
    pub ffn_up: &'a Matrix,
    pub ffn_down: &'a Matrix,
}

/// A model's weights.
pub struct Qwen35Weights<'a> {
    pub embed: &'a Matrix,
    pub lm_head: &'a Matrix,
    pub layers: Vec<Qwen35FullLayerWeights<'a>>,
    pub final_norm: &'a Vec<u32>,
    pub ffn_dim: usize,
}

/// The vector that a name that is there leads to.
pub open spec fn vec_at(w: WeightTables, key: Option<String>) -> Vec<u32> {
    w.vectors.find(key->Some_0@)->Some_0
}

/// The matrix that a name that is there leads to.
pub open spec fn mat_at(w: WeightTables, key: Option<String>) -> Matrix {
    w.tensors.find(key->Some_0@)->Some_0
}

/// The weights are those that the layer's names lead to.
pub open spec fn is_linear_layer(w: WeightTables, k: LayerKeys, d: DeltaNetLayerWeights) -> bool {
    &&& Some(*d.attn_norm) == w.vectors.find(k.input_layernorm@)
    &&& *d.attn_qkv == mat_at(w, k.attn_qkv)
    &&& *d.attn_gate == mat_at(w, k.attn_gate)
    &&& d.ssm_conv1d@ == transposed(mat_at(w, k.ssm_conv1d)@, mat_at(w, k.ssm_conv1d).width())
    &&& d.ssm_conv1d.width() == mat_at(w, k.ssm_conv1d)@.len()
    &&& *d.ssm_dt == vec_at(w, k.ssm_dt)
    &&& *d.ssm_a == vec_at(w, k.ssm_a)
    &&& *d.ssm_beta == mat_at(w, k.ssm_beta)
    &&& *d.ssm_alpha == mat_at(w, k.ssm_alpha)
    &&& *d.ssm_norm == vec_at(w, k.ssm_norm)
    &&& *d.ssm_out == mat_at(w, k.ssm_out)
}

/// The weights are those that the layer's names lead to.
pub open spec fn is_attention_layer(
    w: WeightTables,
    k: LayerKeys,
    d: Qwen35AttentionLayerWeights,
) -> bool {
    &&& Some(*d.attn_norm) == w.vectors.find(k.input_layernorm@)
    &&& Some(*d.attn_q) == w.tensors.find(k.attn_q@)
    &&& Some(*d.attn_k) == w.tensors.find(k.attn_k@)
    &&& Some(*d.attn_v) == w.tensors.find(k.attn_v@)
    &&& Some(*d.attn_output) == w.tensors.find(k.attn_o@)
    &&& *d.attn_q_norm == vec_at(w, k.attn_q_per_head_norm)
    &&& *d.attn_k_norm == vec_at(w, k.attn_k_per_head_norm)
}

/// The weights are those that the layer's names lead to, of the layer's kind.
pub open spec fn is_layer(w: WeightTables, k: LayerKeys, d: Qwen35FullLayerWeights) -> bool {
    &&& match d.block {
        Qwen35LayerWeights::Linear(b) => k.is_linear && is_linear_layer(w, k, b),
        Qwen35LayerWeights::Attention(b) => !k.is_linear && is_attention_layer(w, k, b),
    }
    &&& Some(*d.attn_post_norm) == w.vectors.find(k.post_attention_layernorm@)
    &&& Some(*d.ffn_gate) == w.tensors.find(k.ffn_gate@)
    &&& Some(*d.ffn_up) == w.tensors.find(k.ffn_up@)
    &&& Some(*d.ffn_down) == w.tensors.find(k.ffn_down@)
}

// ---- loading ---------------------------------------------------------------

fn key_copy(k: &Option<String>) -> (r: Option<String>)
    ensures
        key_text(r) == key_text(*k),
{
    match k {
        Some(t) => Some(copy_text(t.as_str())),
        None => None,
    }
}

fn keyed_tensor<'a>(
    weights: &'a WeightTables,
    key: &Option<String>,
    layer: usize,
    method: &'static str,
    kind: &'static str,
) -> (r: Result<&'a Matrix, Qwen35LoadError>)
    ensures
        match lookup_fault(*weights, layer, Lookup::KeyedTensor(key_text(*key), method, kind)) {
            Some(f) => r is Err && r->Err_0@ == f,
            None => r is Ok && *r->Ok_0 == mat_at(*weights, *key),
        },
{
    match require_key(key_copy(key), layer, method, kind) {
        Ok(k) => get_tensor(weights, &k),
        Err(e) => Err(e),
    }
}

fn keyed_vec<'a>(
    weights: &'a WeightTables,
    key: &Option<String>,
    layer: usize,
    method: &'static str,
    kind: &'static str,
) -> (r: Result<&'a Vec<u32>, Qwen35LoadError>)
    ensures
        match lookup_fault(*weights, layer, Lookup::KeyedVector(key_text(*key), method, kind)) {
            Some(f) => r is Err && r->Err_0@ == f,
            None => r is Ok && *r->Ok_0 == vec_at(*weights, *key),
        },
{
    match require_key(key_copy(key), layer, method, kind) {
        Ok(k) => get_vec(weights, &k),
        Err(e) => Err(e),
    }
}

/// The first failing lookup, told from the lookups one by one.
proof fn lemma_lookups_fault(w: WeightTables, layer: usize, s: Seq<Lookup>)
    ensures
        forall|k: int|
            #![trigger s[k]]
            0 <= k < s.len() && lookup_fault(w, layer, s[k]) is Some && (forall|j: int|
                0 <= j < k ==> lookup_fault(w, layer, #[trigger] s[j]) is None) ==> lookups_fault(
                w,
                layer,
                s,
            ) == lookup_fault(w, layer, s[k]),
        (forall|j: int| 0 <= j < s.len() ==> lookup_fault(w, layer, #[trigger] s[j]) is None)
            ==> lookups_fault(w, layer, s) is None,
    decreases s.len(),
{
    if s.len() > 0 {
        let head = s.drop_last();
        lemma_lookups_fault(w, layer, head);
        assert forall|j: int| 0 <= j < head.len() implies head[j] == s[j] by {
        }
        assert forall|k: int|
            #![trigger s[k]]
            0 <= k < s.len() && lookup_fault(w, layer, s[k]) is Some && (forall|j: int|
                0 <= j < k ==> lookup_fault(w, layer, #[trigger] s[j]) is None) implies lookups_fault(
            w,
            layer,
            s,
        ) == lookup_fault(w, layer, s[k]) by {
            if k < head.len() {
                assert(head[k] == s[k]);
                assert forall|j: int| 0 <= j < k implies lookup_fault(
                    w,
                    layer,
                    #[trigger] head[j],
                ) is None by {
                    assert(lookup_fault(w, layer, s[j]) is None);
                }
            } else {
                assert forall|j: int| 0 <= j < head.len() implies lookup_fault(
                    w,
                    layer,
                    #[trigger] head[j],
                ) is None by {
                    assert(lookup_fault(w, layer, s[j]) is None);
                }
            }
        }
        if forall|j: int| 0 <= j < s.len() ==> lookup_fault(w, layer, #[trigger] s[j]) is None {
            assert forall|j: int| 0 <= j < head.len() implies lookup_fault(
                w,
                layer,
                #[trigger] head[j],
            ) is None by {
                assert(lookup_fault(w, layer, s[j]) is None);
            }
            assert(lookup_fault(w, layer, s[s.len() - 1]) is None);
        }
    }
}

/// One lookup more: where those before it do not fail, it is the next to fail or
/// to pass.
proof fn lemma_lookup_told(w: WeightTables, layer: usize, s: Seq<Lookup>, k: int)
    requires
        0 <= k < s.len(),
        lookups_fault(w, layer, s.take(k)) is None,
    ensures
        lookup_fault(w, layer, s[k]) is None ==> lookups_fault(w, layer, s.take(k + 1)) is None,
        lookup_fault(w, layer, s[k]) is Some ==> lookups_fault(w, layer, s) == lookup_fault(
            w,
            layer,
            s[k],
        ),
{
    assert(s.take(k + 1).drop_last() =~= s.take(k));
    if lookup_fault(w, layer, s[k]) is Some {
        lemma_fault_stays(w, layer, s, k + 1, s.len() as int);
        assert(s.take(s.len() as int) =~= s);
    }
}

proof fn lemma_fault_stays(w: WeightTables, layer: usize, s: Seq<Lookup>, a: int, b: int)
    requires
        0 <= a <= b <= s.len(),
        lookups_fault(w, layer, s.take(a)) is Some,
    ensures
        lookups_fault(w, layer, s.take(b)) == lookups_fault(w, layer, s.take(a)),
    decreases b - a,
{
    if a < b {
        lemma_fault_stays(w, layer, s, a, b - 1);
        assert(s.take(b).drop_last() =~= s.take(b - 1));
    }
}

/// The matrix that lookup `k` of a list asks for.
fn tensor_step<'a>(
    weights: &'a WeightTables,
    key: &Option<String>,
    layer: usize,
    method: &'static str,
    kind: &'static str,
    s: Ghost<Seq<Lookup>>,
    k: Ghost<int>,
) -> (r: Result<&'a Matrix, Qwen35LoadError>)
    requires
        0 <= k@ < s@.len(),
        s@[k@] == Lookup::KeyedTensor(key_text(*key), method, kind),
        lookups_fault(*weights, layer, s@.take(k@)) is None,
    ensures
        match r {
            Ok(m) => lookups_fault(*weights, layer, s@.take(k@ + 1)) is None && *m == mat_at(
                *weights,
                *key,
            ),
            Err(e) => lookups_fault(*weights, layer, s@) == Some(e@),
        },
{
    proof {
        lemma_lookup_told(*weights, layer, s@, k@);
    }
    keyed_tensor(weights, key, layer, method, kind)
}

/// The vector that lookup `k` of a list asks for.
fn vec_step<'a>(
    weights: &'a WeightTables,
    key: &Option<String>,
    layer: usize,
    method: &'static str,
    kind: &'static str,
    s: Ghost<Seq<Lookup>>,
    k: Ghost<int>,
) -> (r: Result<&'a Vec<u32>, Qwen35LoadError>)
    requires
        0 <= k@ < s@.len(),
        s@[k@] == Lookup::KeyedVector(key_text(*key), method, kind),
        lookups_fault(*weights, layer, s@.take(k@)) is None,
    ensures
        match r {
            Ok(v) => lookups_fault(*weights, layer, s@.take(k@ + 1)) is None && *v == vec_at(
                *weights,
                *key,
            ),
            Err(e) => lookups_fault(*weights, layer, s@) == Some(e@),
        },
{
    proof {
        lemma_lookup_told(*weights, layer, s@, k@);
    }
    keyed_vec(weights, key, layer, method, kind)
}

/// A linear layer's weights.
#[verifier::spinoff_prover]
pub fn load_deltanet_layer<'a>(weights: &'a WeightTables, keys: &LayerKeys, layer: usize) -> (r:
    Result<DeltaNetLayerWeights<'a>, Qwen35LoadError>)
    ensures
        match lookups_fault(*weights, layer, linear_lookups(*keys)) {
            Some(f) => r is Err && r->Err_0@ == f,
            None => r is Ok && is_linear_layer(*weights, *keys, r->Ok_0),
        },
{
    let ghost s = linear_lookups(*keys);
    proof {
        assert(s.len() == 10);
        assert(s.take(0) =~= Seq::<Lookup>::empty());
        assert(s.take(10) =~= s);
        assert(s[0] == Lookup::Vector(keys.input_layernorm@));
        assert(s[1] == Lookup::KeyedTensor(key_text(keys.attn_qkv), "attn_qkv_key", "linear"));
        assert(s[2] == Lookup::KeyedTensor(key_text(keys.attn_gate), "attn_gate_key", "linear"));
        assert(s[3] == Lookup::KeyedTensor(key_text(keys.ssm_conv1d), "ssm_conv1d_key", "linear"));
        assert(s[4] == Lookup::KeyedVector(key_text(keys.ssm_dt), "ssm_dt_key", "linear"));
        assert(s[5] == Lookup::KeyedVector(key_text(keys.ssm_a), "ssm_a_key", "linear"));
        assert(s[6] == Lookup::KeyedTensor(key_text(keys.ssm_beta), "ssm_beta_key", "linear"));
        assert(s[7] == Lookup::KeyedTensor(key_text(keys.ssm_alpha), "ssm_alpha_key", "linear"));
        assert(s[8] == Lookup::KeyedVector(key_text(keys.ssm_norm), "ssm_norm_key", "linear"));
        assert(s[9] == Lookup::KeyedTensor(key_text(keys.ssm_out), "ssm_out_key", "linear"));
    }
    proof {
        lemma_lookup_told(*weights, layer, s, 0);
    }
    let attn_norm: &'a Vec<u32> = match get_vec(weights, &keys.input_layernorm) {
        Ok(v) => v,
        Err(e) => return Err(e),
    };
    let attn_qkv: &'a Matrix = match tensor_step(
        weights,
        &keys.attn_qkv,
        layer,
        "attn_qkv_key",
        "linear",
        Ghost(s),
        Ghost(1),
    ) {
        Ok(m) => m,
        Err(e) => return Err(e),
    };
    let attn_gate: &'a Matrix = match tensor_step(
        weights,
        &keys.attn_gate,
        layer,
        "attn_gate_key",
        "linear",
        Ghost(s),
        Ghost(2),
    ) {
        Ok(m) => m,
        Err(e) => return Err(e),
    };
    let conv_raw: &'a Matrix = match tensor_step(
        weights,
        &keys.ssm_conv1d,
        layer,
        "ssm_conv1d_key",
        "linear",
        Ghost(s),
        Ghost(3),
    ) {
        Ok(m) => m,
        Err(e) => return Err(e),
    };
    let ssm_conv1d: Matrix = conv_raw.transpose();
    let ssm_dt: &'a Vec<u32> = match vec_step(
        weights,
        &keys.ssm_dt,
        layer,
        "ssm_dt_key",
        "linear",
        Ghost(s),
        Ghost(4),
    ) {
        Ok(v) => v,
        Err(e) => return Err(e),
    };
    let ssm_a: &'a Vec<u32> = match vec_step(
        weights,
        &keys.ssm_a,
        layer,
        "ssm_a_key",
        "linear",
        Ghost(s),
        Ghost(5),
    ) {
        Ok(v) => v,
        Err(e) => return Err(e),
    };
    let ssm_beta: &'a Matrix = match tensor_step(
        weights,
        &keys.ssm_beta,
        layer,
        "ssm_beta_key",
        "linear",
        Ghost(s),
        Ghost(6),
    ) {
        Ok(m) => m,
        Err(e) => return Err(e),
    };
    let ssm_alpha: &'a Matrix = match tensor_step(
        weights,
        &keys.ssm_alpha,
        layer,
        "ssm_alpha_key",
        "linear",
        Ghost(s),
        Ghost(7),
    ) {
        Ok(m) => m,
        Err(e) => return Err(e),
    };
    let ssm_norm: &'a Vec<u32> = match vec_step(
        weights,
        &keys.ssm_norm,
        layer,
        "ssm_norm_key",
        "linear",
        Ghost(s),
        Ghost(8),
    ) {
        Ok(v) => v,
        Err(e) => return Err(e),
    };
    let ssm_out: &'a Matrix = match tensor_step(
        weights,
        &keys.ssm_out,
        layer,
        "ssm_out_key",
        "linear",
        Ghost(s),
        Ghost(9),
    ) {
        Ok(m) => m,
        Err(e) => return Err(e),
    };
    Ok(
        DeltaNetLayerWeights {
            attn_norm,
            attn_qkv,
            attn_gate,
            ssm_conv1d,
            ssm_dt,
            ssm_a,
            ssm_beta,
            ssm_alpha,
            ssm_norm,
            ssm_out,
        },
    )
}

/// A softmax layer's weights.
#[verifier::spinoff_prover]
pub fn load_attention_layer<'a>(weights: &'a WeightTables, keys: &LayerKeys, layer: usize) -> (r:
    Result<Qwen35AttentionLayerWeights<'a>, Qwen35LoadError>)
    ensures
        match lookups_fault(*weights, layer, attention_lookups(*keys)) {
            Some(f) => r is Err && r->Err_0@ == f,
            None => r is Ok && is_attention_layer(*weights, *keys, r->Ok_0),
        },
{
    let ghost s = attention_lookups(*keys);
    proof {
        lemma_lookups_fault(*weights, layer, s);
        assert(s.len() == 7);
        assert(s[0] == Lookup::Vector(keys.input_layernorm@));
        assert(s[1] == Lookup::Tensor(keys.attn_q@));
        assert(s[2] == Lookup::Tensor(keys.attn_k@));
        assert(s[3] == Lookup::Tensor(keys.attn_v@));
        assert(s[4] == Lookup::Tensor(keys.attn_o@));
        assert(s[5] == Lookup::KeyedVector(
            key_text(keys.attn_q_per_head_norm),
            "attn_q_per_head_norm_key",
            "full-attn",
        ));
        assert(s[6] == Lookup::KeyedVector(
            key_text(keys.attn_k_per_head_norm),
            "attn_k_per_head_norm_key",
            "full-attn",
        ));
    }
    let attn_norm: &'a Vec<u32> = match get_vec(weights, &keys.input_layernorm) {
        Ok(v) => v,
        Err(e) => return Err(e),
    };
    let attn_q: &'a Matrix = match get_tensor(weights, &keys.attn_q) {
        Ok(m) => m,
        Err(e) => return Err(e),
    };
    let attn_k: &'a Matrix = match get_tensor(weights, &keys.attn_k) {
        Ok(m) => m,
        Err(e) => return Err(e),
    };
    let attn_v: &'a Matrix = match get_tensor(weights, &keys.attn_v) {
        Ok(m) => m,
        Err(e) => return Err(e),
    };
    let attn_output: &'a Matrix = match get_tensor(weights, &keys.attn_o) {
        Ok(m) => m,
        Err(e) => return Err(e),
    };
    let attn_q_norm: &'a Vec<u32> = match keyed_vec(
        weights,
        &keys.attn_q_per_head_norm,
        layer,
        "attn_q_per_head_norm_key",
        "full-attn",
    ) {
        Ok(v) => v,
        Err(e) => return Err(e),
    };
    let attn_k_norm: &'a Vec<u32> = match keyed_vec(
        weights,
        &keys.attn_k_per_head_norm,
        layer,
        "attn_k_per_head_norm_key",
        "full-attn",
    ) {
        Ok(v) => v,
        Err(e) => return Err(e),
    };
    assert(lookups_fault(*weights, layer, s) is None) by {
        assert forall|j: int| 0 <= j < s.len() implies lookup_fault(
            *weights,
            layer,
            #[trigger] s[j],
        ) is None by {
            assert(j == 0 || j == 1 || j == 2 || j == 3 || j == 4 || j == 5 || j == 6);
        }
    }
    Ok(
        Qwen35AttentionLayerWeights {
            attn_norm,
            attn_q,
            attn_k,
            attn_v,
            attn_q_norm,
            attn_k_norm,
            attn_output,
        },
    )
}

fn load_layer<'a>(weights: &'a WeightTables, keys: &LayerKeys, layer: usize) -> (r: Result<
    Qwen35FullLayerWeights<'a>,
    Qwen35LoadError,
>)
    ensures
        match layer_fault(*weights, layer, *keys) {
            Some(f) => r is Err && r->Err_0@ == f,
            None => r is Ok && is_layer(*weights, *keys, r->Ok_0),
        },
{
    let block: Qwen35LayerWeights<'a> = if keys.is_linear {
        match load_deltanet_layer(weights, keys, layer) {
            Ok(b) => Qwen35LayerWeights::Linear(b),
            Err(e) => return Err(e),
        }
    } else {
        match load_attention_layer(weights, keys, layer) {
            Ok(b) => Qwen35LayerWeights::Attention(b),
            Err(e) => return Err(e),
        }
    };
    let ghost s = suffix_lookups(*keys);
    proof {
        lemma_lookups_fault(*weights, layer, s);
        assert(s.len() == 4);
        assert(s[0] == Lookup::Vector(keys.post_attention_layernorm@));
        assert(s[1] == Lookup::Tensor(keys.ffn_gate@));
        assert(s[2] == Lookup::Tensor(keys.ffn_up@));
        assert(s[3] == Lookup::Tensor(keys.ffn_down@));
    }
    let attn_post_norm: &'a Vec<u32> = match get_vec(weights, &keys.post_attention_layernorm) {
        Ok(v) => v,
        Err(e) => return Err(e),
    };
    let ffn_gate: &'a Matrix = match get_tensor(weights, &keys.ffn_gate) {
        Ok(m) => m,
        Err(e) => return Err(e),
    };
    let ffn_up: &'a Matrix = match get_tensor(weights, &keys.ffn_up) {
        Ok(m) => m,
        Err(e) => return Err(e),
    };
    let ffn_down: &'a Matrix = match get_tensor(weights, &keys.ffn_down) {
        Ok(m) => m,
        Err(e) => return Err(e),
    };
    assert(lookups_fault(*weights, layer, s) is None) by {
        assert forall|j: int| 0 <= j < s.len() implies lookup_fault(
            *weights,
            layer,
            #[trigger] s[j],
        ) is None by {
            assert(j == 0 || j == 1 || j == 2 || j == 3);
        }
    }
    Ok(Qwen35FullLayerWeights { block, attn_post_norm, ffn_gate, ffn_up, ffn_down })
}

proof fn lemma_layers_fault_stays(w: WeightTables, keys: Seq<LayerKeys>, a: nat, b: nat)
    requires
        a <= b,
        layers_fault(w, keys, a) is Some,
    ensures
        layers_fault(w, keys, b) == layers_fault(w, keys, a),
    decreases b,
{
    if a < b {
        lemma_layers_fault_stays(w, keys, a, (b - 1) as nat);
    }
}

/// The typed weights of a model.
pub fn load_qwen35_weights<'a>(weights: &'a WeightTables, arch: &HybridArch) -> (r: Result<
    Qwen35Weights<'a>,
    Qwen35LoadError,
>)
    ensures
        match load_fault(*weights, *arch) {
            Some(f) => r is Err && r->Err_0@ == f,
            None => {
                &&& r is Ok
                &&& r->Ok_0.layers@.len() == arch.layers@.len()
                &&& forall|l: int|
                    0 <= l < arch.layers@.len() ==> is_layer(
                        *weights,
                        arch.layers@[l],
                        #[trigger] r->Ok_0.layers@[l],
                    )
                &&& Some(*r->Ok_0.final_norm) == weights.vectors.find(arch.final_norm@)
                &&& *r->Ok_0.embed == weights.embed
                &&& *r->Ok_0.lm_head == weights.lm_head
                &&& r->Ok_0.ffn_dim == arch.intermediate_size
            },
        },
{
    if arch.full_attention_interval == 0 {
        return Err(Qwen35LoadError::NotHybrid { field: "full_attention_interval" });
    }
    if arch.ssm_state_size == 0 {
        return Err(Qwen35LoadError::NotHybrid { field: "ssm_state_size" });
    }
    let mut layers: Vec<Qwen35FullLayerWeights<'a>> = Vec::new();
    let mut l: usize = 0;
    while l < arch.layers.len()
        invariant
            l <= arch.layers@.len(),
            arch.full_attention_interval != 0,
            arch.ssm_state_size != 0,
            layers@.len() == l,
            layers_fault(*weights, arch.layers@, l as nat) is None,
            forall|i: int|
                0 <= i < l ==> is_layer(*weights, arch.layers@[i], #[trigger] layers@[i]),
        decreases arch.layers@.len() - l,
    {
        match load_layer(weights, &arch.layers[l], l) {
            Ok(layer) => {
                layers.push(layer);
            },
            Err(e) => {
                proof {
                    lemma_layers_fault_stays(
                        *weights,
                        arch.layers@,
                        (l + 1) as nat,
                        arch.layers@.len(),
                    );
                }
                return Err(e);
            },
        }
        l += 1;
    }
    match get_vec(weights, &arch.final_norm) {
        Ok(final_norm) => Ok(
            Qwen35Weights {
                embed: &weights.embed,
                lm_head: &weights.lm_head,
                layers,
                final_norm,
                ffn_dim: arch.intermediate_size,
            },
        ),
        Err(e) => Err(e),
    }
}

/// A model without a full-attention interval is refused before any tensor is
/// looked up.
pub proof fn law_non_hybrid_is_refused_first(w: WeightTables, arch: HybridArch)
    requires
        arch.full_attention_interval == 0,
    ensures
        load_fault(w, arch) == Some(HybridFault::NotHybrid { field: "full_attention_interval" }),
{
}

/// What is wrong with a lookup, if anything is: no key where one is asked for, or
/// nothing under the key, in the table that the lookup is for.
pub proof fn law_lookup_faults(
    w: WeightTables,
    layer: usize,
    k: Seq<char>,
    key: Option<Seq<char>>,
    method: &'static str,
    kind: &'static str,
)
    ensures
        lookup_fault(w, layer, Lookup::Vector(k)) is None <==> w.vectors@.contains_key(k),
        lookup_fault(w, layer, Lookup::Tensor(k)) is None <==> w.tensors@.contains_key(k),
        !w.vectors@.contains_key(k) ==> lookup_fault(w, layer, Lookup::Vector(k)) == Some(
            HybridFault::MissingVector(k),
        ),
        !w.tensors@.contains_key(k) ==> lookup_fault(w, layer, Lookup::Tensor(k)) == Some(
            HybridFault::MissingTensor(k),
        ),
        key is None ==> lookup_fault(w, layer, Lookup::KeyedVector(key, method, kind)) == Some(
            HybridFault::NoKey { layer, method, kind },
        ),
        key is None ==> lookup_fault(w, layer, Lookup::KeyedTensor(key, method, kind)) == Some(
            HybridFault::NoKey { layer, method, kind },
        ),
        key matches Some(x) ==> lookup_fault(w, layer, Lookup::KeyedVector(key, method, kind))
            == lookup_fault(w, layer, Lookup::Vector(x)),
        key matches Some(x) ==> lookup_fault(w, layer, Lookup::KeyedTensor(key, method, kind))
            == lookup_fault(w, layer, Lookup::Tensor(x)),
{
}

/// The fault of some lookups is that of the first one that fails.
pub proof fn law_first_failing_lookup(w: WeightTables, layer: usize, s: Seq<Lookup>)
    ensures
        match lookups_fault(w, layer, s) {
            None => forall|i: int|
                0 <= i < s.len() ==> lookup_fault(w, layer, #[trigger] s[i]) is None,
            Some(f) => exists|k: int|
                {
                    &&& 0 <= k < s.len()
                    &&& lookup_fault(w, layer, #[trigger] s[k]) == Some(f)
                    &&& forall|i: int|
                        0 <= i < k ==> lookup_fault(w, layer, #[trigger] s[i]) is None
                },
        },
    decreases s.len(),
{
    if s.len() > 0 {
        let front = s.drop_last();
        law_first_failing_lookup(w, layer, front);
        match lookups_fault(w, layer, front) {
            None => {
                assert forall|i: int| 0 <= i < s.len() - 1 implies lookup_fault(
                    w,
                    layer,
                    #[trigger] s[i],
                ) is None by {
                    assert(front[i] == s[i]);
                }
                assert(s[s.len() - 1] == s.last());
            },
            Some(f) => {
                let k = choose|k: int|
                    {
                        &&& 0 <= k < front.len()
                        &&& lookup_fault(w, layer, #[trigger] front[k]) == Some(f)
                        &&& forall|i: int|
                            0 <= i < k ==> lookup_fault(w, layer, #[trigger] front[i]) is None
                    };
                assert(s[k] == front[k]);
                assert forall|i: int| 0 <= i < k implies lookup_fault(
                    w,
                    layer,
                    #[trigger] s[i],
                ) is None by {
                    assert(front[i] == s[i]);
                }
            },
        }
    }
}

/// A key is there and something stands under it.
pub open spec fn names<V>(t: Table<V>, key: Option<String>) -> bool {
    key is Some && t@.contains_key(key->Some_0@)
}

/// A layer loads where everything that its kind asks for stands under its keys, and
/// nowhere else; a linear layer asks for nothing of a softmax layer, and the other way
/// round.
pub proof fn law_layer_loads_where_its_keys_are(w: WeightTables, layer: usize, k: LayerKeys)
    ensures
        layer_fault(w, layer, k) is None <==> {
            &&& w.vectors@.contains_key(k.input_layernorm@)
            &&& k.is_linear ==> {
                &&& names(w.tensors, k.attn_qkv) && names(w.tensors, k.attn_gate)
                &&& names(w.tensors, k.ssm_conv1d) && names(w.vectors, k.ssm_dt)
                &&& names(w.vectors, k.ssm_a) && names(w.tensors, k.ssm_beta)
                &&& names(w.tensors, k.ssm_alpha) && names(w.vectors, k.ssm_norm)
                &&& names(w.tensors, k.ssm_out)
            }
            &&& !k.is_linear ==> {
                &&& w.tensors@.contains_key(k.attn_q@) && w.tensors@.contains_key(k.attn_k@)
                &&& w.tensors@.contains_key(k.attn_v@) && w.tensors@.contains_key(k.attn_o@)
                &&& names(w.vectors, k.attn_q_per_head_norm)
                &&& names(w.vectors, k.attn_k_per_head_norm)
            }
            &&& w.vectors@.contains_key(k.post_attention_layernorm@)
            &&& w.tensors@.contains_key(k.ffn_gate@) && w.tensors@.contains_key(k.ffn_up@)
            &&& w.tensors@.contains_key(k.ffn_down@)
        },
{
    let b = block_lookups(k);
    let s = suffix_lookups(k);
    law_first_failing_lookup(w, layer, b);
    law_first_failing_lookup(w, layer, s);
    if lookups_fault(w, layer, b) is None {
        assert(lookup_fault(w, layer, b[0]) is None);
        assert(lookup_fault(w, layer, b[1]) is None);
        assert(lookup_fault(w, layer, b[2]) is None);
        assert(lookup_fault(w, layer, b[3]) is None);
        assert(lookup_fault(w, layer, b[4]) is None);
        assert(lookup_fault(w, layer, b[5]) is None);
        assert(lookup_fault(w, layer, b[6]) is None);
        if k.is_linear {
            assert(lookup_fault(w, layer, b[7]) is None);
            assert(lookup_fault(w, layer, b[8]) is None);
            assert(lookup_fault(w, layer, b[9]) is None);
        }
    }
    if lookups_fault(w, layer, s) is None {
        assert(lookup_fault(w, layer, s[0]) is None);
        assert(lookup_fault(w, layer, s[1]) is None);
        assert(lookup_fault(w, layer, s[2]) is None);
        assert(lookup_fault(w, layer, s[3]) is None);
    }
}

/// Every weight of a loaded layer is what stands under its own key; the convolution's
/// kernel is turned, so that its word `(i, j)` is the stored word `(j, i)`.
pub proof fn law_loaded_weights_by_key(
    w: WeightTables,
    layer: usize,
    k: LayerKeys,
    d: Qwen35FullLayerWeights,
)
    requires
        layer_fault(w, layer, k) is None,
        is_layer(w, k, d),
    ensures
        d.block is Linear <==> k.is_linear,
        d.block matches Qwen35LayerWeights::Linear(b) ==> {
            &&& *b.attn_norm == w.vectors@[k.input_layernorm@]
            &&& *b.attn_qkv == w.tensors@[k.attn_qkv->Some_0@]
            &&& *b.attn_gate == w.tensors@[k.attn_gate->Some_0@]
            &&& *b.ssm_dt == w.vectors@[k.ssm_dt->Some_0@]
            &&& *b.ssm_a == w.vectors@[k.ssm_a->Some_0@]
            &&& *b.ssm_beta == w.tensors@[k.ssm_beta->Some_0@]
            &&& *b.ssm_alpha == w.tensors@[k.ssm_alpha->Some_0@]
            &&& *b.ssm_norm == w.vectors@[k.ssm_norm->Some_0@]
            &&& *b.ssm_out == w.tensors@[k.ssm_out->Some_0@]
            &&& ({
                let stored = w.tensors@[k.ssm_conv1d->Some_0@];
                &&& b.ssm_conv1d@.len() == stored.width()
                &&& b.ssm_conv1d.width() == stored@.len()
                &&& forall|i: int, j: int|
                    0 <= i < stored.width() && 0 <= j < stored@.len() ==> (
                    #[trigger] b.ssm_conv1d@[i][j]) == stored@[j][i]
            })
        },
        d.block matches Qwen35LayerWeights::Attention(b) ==> {
            &&& *b.attn_norm == w.vectors@[k.input_layernorm@]
            &&& *b.attn_q == w.tensors@[k.attn_q@]
            &&& *b.attn_k == w.tensors@[k.attn_k@]
            &&& *b.attn_v == w.tensors@[k.attn_v@]
            &&& *b.attn_output == w.tensors@[k.attn_o@]
            &&& *b.attn_q_norm == w.vectors@[k.attn_q_per_head_norm->Some_0@]
            &&& *b.attn_k_norm == w.vectors@[k.attn_k_per_head_norm->Some_0@]
        },
        *d.attn_post_norm == w.vectors@[k.post_attention_layernorm@],
        *d.ffn_gate == w.tensors@[k.ffn_gate@],
        *d.ffn_up == w.tensors@[k.ffn_up@],
        *d.ffn_down == w.tensors@[k.ffn_down@],
{
    law_layer_loads_where_its_keys_are(w, layer, k);
}

/// A model loads where it is hybrid, every layer loads and the final norm is there;
/// where a layer does not load, the fault is that of the first such layer, by its own
/// number.
pub proof fn law_model_loads_layer_by_layer(w: WeightTables, keys: Seq<LayerKeys>, n: nat)
    requires
        n <= keys.len(),
        n <= usize::MAX,
    ensures
        match layers_fault(w, keys, n) {
            None => forall|l: int|
                0 <= l < n ==> layer_fault(w, l as usize, #[trigger] keys[l]) is None,
            Some(f) => exists|k: int|
                {
                    &&& 0 <= k < n
                    &&& layer_fault(w, k as usize, #[trigger] keys[k]) == Some(f)
                    &&& forall|l: int|
                        0 <= l < k ==> layer_fault(w, l as usize, #[trigger] keys[l]) is None
                },
        },
    decreases n,
{
    if n > 0 {
        law_model_loads_layer_by_layer(w, keys, (n - 1) as nat);
        if layers_fault(w, keys, (n - 1) as nat) is None {
            let k = n - 1;
            assert(layer_fault(w, k as usize, keys[k]) == layers_fault(w, keys, n));
        }
    }
}

/// What a model needs besides its layers, and what is refused first.
pub proof fn law_what_a_model_needs(w: WeightTables, arch: HybridArch)
    ensures
        load_fault(w, arch) is None <==> {
            &&& arch.full_attention_interval != 0
            &&& arch.ssm_state_size != 0
            &&& layers_fault(w, arch.layers@, arch.layers@.len()) is None
            &&& w.vectors@.contains_key(arch.final_norm@)
        },
        arch.full_attention_interval != 0 && arch.ssm_state_size == 0 ==> load_fault(w, arch)
            == Some(HybridFault::NotHybrid { field: "ssm_state_size" }),
        arch.full_attention_interval != 0 && arch.ssm_state_size != 0 && layers_fault(
            w,
            arch.layers@,
            arch.layers@.len(),
        ) is Some ==> load_fault(w, arch) == layers_fault(w, arch.layers@, arch.layers@.len()),
{
}

/// What the faults of loading say.
pub proof fn law_hybrid_fault_texts(
    k: Seq<char>,
    layer: usize,
    method: &'static str,
    kind: &'static str,
    field: &'static str,
)
    ensures
        HybridFault::MissingTensor(k).text() == "missing 2-D tensor: "@ + k,
        HybridFault::MissingVector(k).text() == "missing 1-D tensor (in `vectors` map): "@ + k,
        (HybridFault::NoKey { layer, method, kind }).text()
            == "architecture method returned None for required key on layer "@ + decimal(
            layer as nat,
        ) + ": "@ + method@ + "; is this layer really "@ + kind@ + "?"@,
        (HybridFault::NotHybrid { field }).text() == "architecture is not hybrid Qwen 3.6 — "@
            + field@ + " is 0. Did you pass a Qwen35Arch or Qwen35MoeArch?"@,
{
}

/// Which key a linear or a softmax layer asks for when it has none, and under which
/// name it is reported missing.
pub proof fn law_missing_keys_are_named(w: WeightTables, layer: usize, k: LayerKeys)
    requires
        w.vectors@.contains_key(k.input_layernorm@),
    ensures
        k.is_linear && k.attn_qkv is None ==> layer_fault(w, layer, k) == Some(
            HybridFault::NoKey { layer, method: "attn_qkv_key", kind: "linear" },
        ),
        k.is_linear && names(w.tensors, k.attn_qkv) && k.attn_gate is None ==> layer_fault(
            w,
            layer,
            k,
        ) == Some(HybridFault::NoKey { layer, method: "attn_gate_key", kind: "linear" }),
        k.is_linear && names(w.tensors, k.attn_qkv) && names(w.tensors, k.attn_gate)
            && k.ssm_conv1d is None ==> layer_fault(w, layer, k) == Some(
            HybridFault::NoKey { layer, method: "ssm_conv1d_key", kind: "linear" },
        ),
        !k.is_linear && w.tensors@.contains_key(k.attn_q@) && w.tensors@.contains_key(k.attn_k@)
            && w.tensors@.contains_key(k.attn_v@) && w.tensors@.contains_key(k.attn_o@)
            && k.attn_q_per_head_norm is None ==> layer_fault(w, layer, k) == Some(
            HybridFault::NoKey { layer, method: "attn_q_per_head_norm_key", kind: "full-attn" },
        ),
{
    let b = block_lookups(k);
    law_first_failing_lookup(w, layer, b);
    if lookups_fault(w, layer, b) is None {
        assert(lookup_fault(w, layer, b[1]) is None);
        assert(lookup_fault(w, layer, b[2]) is None);
        assert(lookup_fault(w, layer, b[3]) is None);
        assert(lookup_fault(w, layer, b[5]) is None);
    } else {
        let f = lookups_fault(w, layer, b)->Some_0;
        let i = choose|i: int|
            {
                &&& 0 <= i < b.len()
                &&& lookup_fault(w, layer, #[trigger] b[i]) == Some(f)
                &&& forall|j: int| 0 <= j < i ==> lookup_fault(w, layer, #[trigger] b[j]) is None
            };
        assert(lookup_fault(w, layer, b[0]) is None);
        if i > 1 {
            assert(lookup_fault(w, layer, b[1]) is None);
        }
        if i > 2 {
            assert(lookup_fault(w, layer, b[2]) is None);
        }
        if i > 3 {
            assert(lookup_fault(w, layer, b[3]) is None);
        }
        if i > 5 {
            assert(lookup_fault(w, layer, b[5]) is None);
        }
    }
}

} // verus!
