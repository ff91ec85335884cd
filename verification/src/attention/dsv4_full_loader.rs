//! From a layer's tensors to its typed storage, and what can go wrong on the
//! way.
use vstd::prelude::*;
use vstd::string::*;
use crate::attention::dsv4_gguf_reader::LayerTensors;
use crate::attention::dsv4_params::DsV4LayerVariant;
use crate::attention::dsv4_storage::DsV4LayerWeightStorage;
use crate::attention::dsv4_storage_build::{
    build_fault, build_layer_storage, shapes_allowed, storage_of, DsV4BuildError, DsV4Hyperparams,
};
use crate::text::{decimal, decimal_text};

verus! {

/// Why a model could not be loaded. The first two carry what the reader of the
/// model file said.
#[derive(Debug)]
pub enum DsV4LoadError {
    Metadata(String),
    TensorIo(String),
    Build { layer_index: usize, cause: DsV4BuildError },
}

impl DsV4LoadError {
    /// The message, where the kind at fault is called `kind_name`.
    pub open spec fn message_text(self, kind_name: Seq<char>) -> Seq<char> {
        match self {
            DsV4LoadError::Metadata(e) => "DSv4 metadata: "@ + e@,
            DsV4LoadError::TensorIo(e) => "DSv4 tensor I/O: "@ + e@,
            DsV4LoadError::Build { layer_index, cause } => "DSv4 build layer "@ + decimal(
                layer_index as nat,
            ) + ": "@ + cause.message_text(kind_name),
        }
    }

    /// The message for a reader, where the kind at fault is called `kind_name`.
    pub fn message(&self, kind_name: &str) -> (t: String)
        requires
            self matches DsV4LoadError::Build { layer_index, cause } ==> (cause matches
                DsV4BuildError::ShapeMismatch { kind, expected, got_elems } ==>
                crate::attention::dsv4_storage_build::shape_fits(expected@)),
        ensures
            t@ == self.message_text(kind_name@),
    {
        match self {
            DsV4LoadError::Metadata(e) => {
                let mut t: String = String::from_str("DSv4 metadata: ");
                t.append(e.as_str());
                t
            },
            DsV4LoadError::TensorIo(e) => {
                let mut t: String = String::from_str("DSv4 tensor I/O: ");
                t.append(e.as_str());
                t
            },
            DsV4LoadError::Build { layer_index, cause } => {
                let mut t: String = String::from_str("DSv4 build layer ");
                let n: String = decimal_text(*layer_index as u64);
                t.append(n.as_str());
                t.append(": ");
                let c: String = cause.message(kind_name);
                t.append(c.as_str());
                t
            },
        }
    }
}

/// A layer as it was read: its variant, and its tensors or what the reader
/// said.
pub struct LayerSource {
    pub variant: DsV4LayerVariant,
    pub tensors: Result<LayerTensors, String>,
}

/// The ratio that a variant's storage is built with.
pub open spec fn ratio_of(variant: DsV4LayerVariant) -> usize {
    match variant.compress_ratio {
        Some(n) => n,
        None => 0,
    }
}

impl LayerSource {
    /// The tensors make up a table, and the shapes that the variant asks for
    /// are ones that an array can have.
    pub open spec fn allowed(&self, hp: DsV4Hyperparams) -> bool {
        self.tensors matches Ok(t) ==> t.wf() && shapes_allowed(t@, hp, ratio_of(self.variant))
    }

    /// The layer loads.
    pub open spec fn loads(&self, hp: DsV4Hyperparams) -> bool {
        self.tensors matches Ok(t) && build_fault(t@, hp, ratio_of(self.variant)) is None
    }
}

/// What comes of a layer: its storage and variant, or the error that its
/// reading or its building gave.
pub open spec fn layer_result(
    source: LayerSource,
    hp: DsV4Hyperparams,
    layer_index: usize,
    r: Result<(DsV4LayerWeightStorage, DsV4LayerVariant), DsV4LoadError>,
) -> bool {
    match source.tensors {
        Err(e) => r matches Err(DsV4LoadError::TensorIo(f)) && f == e,
        Ok(t) => match build_fault(t@, hp, ratio_of(source.variant)) {
            None => r is Ok && r->Ok_0.0@ == storage_of(t@, hp, ratio_of(source.variant))
                && r->Ok_0.1 == source.variant,
            Some(fault) => r matches Err(DsV4LoadError::Build { layer_index: l, cause }) && l
                == layer_index && cause@ == fault,
        },
    }
}

/// Layer `k` is the first that does not load, and this is its error.
pub open spec fn fails_at(
    sources: Seq<LayerSource>,
    hp: DsV4Hyperparams,
    k: int,
    e: DsV4LoadError,
) -> bool {
    &&& 0 <= k < sources.len()
    &&& !sources[k].loads(hp)
    &&& layer_result(sources[k], hp, k as usize, Err(e))
    &&& forall|i: int| 0 <= i < k ==> (#[trigger] sources[i]).loads(hp)
}

/// One layer's storage and variant.
pub fn load_dsv4_layer(source: LayerSource, hp: &DsV4Hyperparams, layer_index: usize) -> (r: Result<
    (DsV4LayerWeightStorage, DsV4LayerVariant),
    DsV4LoadError,
>)
    requires
        source.allowed(*hp),
    ensures
        layer_result(source, *hp, layer_index, r),
{
    match source.tensors {
        Err(e) => Err(DsV4LoadError::TensorIo(e)),
        Ok(tensors) => {
            let ratio: usize = match source.variant.compress_ratio {
                Some(n) => n,
                None => 0,
            };
            match build_layer_storage(&tensors, hp, ratio) {
                Ok(storage) => Ok((storage, source.variant)),
                Err(cause) => Err(DsV4LoadError::Build { layer_index, cause }),
            }
        },
    }
}

/// Every layer's storage and variant, first layer first; the first layer that
/// does not load ends it with its error.
pub fn load_dsv4_layers(sources: Vec<LayerSource>, hp: &DsV4Hyperparams) -> (r: Result<
    Vec<(DsV4LayerWeightStorage, DsV4LayerVariant)>,
    DsV4LoadError,
>)
    requires
        forall|i: int| 0 <= i < sources@.len() ==> (#[trigger] sources@[i]).allowed(*hp),
    ensures
        match r {
            Ok(layers) => layers@.len() == sources@.len() && (forall|i: int|
                0 <= i < layers@.len() ==> (#[trigger] sources@[i]).loads(*hp) && layer_result(
                    sources@[i],
                    *hp,
                    i as usize,
                    Ok(layers@[i]),
                )),
            Err(e) => exists|k: int| #[trigger] fails_at(sources@, *hp, k, e),
        },
{
    let ghost all = sources@;
    let n: usize = sources.len();
    let mut rest: Vec<LayerSource> = sources;
    let mut layers: Vec<(DsV4LayerWeightStorage, DsV4LayerVariant)> = Vec::new();
    let mut i: usize = 0;
    assert(all.skip(0) =~= all);
    while i < n
        invariant
            i <= n,
            n == all.len(),
            all == sources@,
            rest@ == all.skip(i as int),
            layers@.len() == i,
            forall|j: int| 0 <= j < n ==> (#[trigger] all[j]).allowed(*hp),
            forall|j: int|
                0 <= j < i ==> (#[trigger] all[j]).loads(*hp) && layer_result(
                    all[j],
                    *hp,
                    j as usize,
                    Ok(layers@[j]),
                ),
        decreases n - i,
    {
        let source: LayerSource = rest.remove(0);
        assert(source == all[i as int]);
        assert(rest@ =~= all.skip(i + 1));
        match load_dsv4_layer(source, hp, i) {
            Ok(layer) => {
                layers.push(layer);
            },
            Err(e) => {
                let ghost k = i as int;
                assert(k as usize == i);
                assert(fails_at(all, *hp, k, e));
                return Err(e);
            },
        }
        i += 1;
    }
    Ok(layers)
}

/// What loading a layer gives: the error of reading its tensors where that failed;
/// else the fault of building it, with the layer's own number; else the layer, and
/// the variant that was read. A layer that does not compress is built with ratio zero.
pub proof fn law_layer_result(
    source: LayerSource,
    hp: DsV4Hyperparams,
    layer_index: usize,
    r: Result<(DsV4LayerWeightStorage, DsV4LayerVariant), DsV4LoadError>,
)
    requires
        layer_result(source, hp, layer_index, r),
    ensures
        ({
            let ratio = if source.variant.compress_ratio is Some {
                source.variant.compress_ratio->Some_0
            } else {
                0
            };
            match source.tensors {
                Err(e) => r == Err::<(DsV4LayerWeightStorage, DsV4LayerVariant), DsV4LoadError>(
                    DsV4LoadError::TensorIo(e),
                ),
                Ok(t) => {
                    &&& r is Ok <==> build_fault(t@, hp, ratio) is None
                    &&& r matches Ok(layer) ==> layer.0@ == storage_of(t@, hp, ratio) && layer.1
                        == source.variant
                    &&& r matches Err(e) ==> (e matches DsV4LoadError::Build {
                        layer_index: l,
                        cause,
                    } && l == layer_index && Some(cause@) == build_fault(t@, hp, ratio))
                },
            }
        }),
        source.loads(hp) <==> r is Ok,
{
}

/// The error of loading layers is that of the first one that does not load.
pub proof fn law_first_failing_layer_is_reported(
    sources: Seq<LayerSource>,
    hp: DsV4Hyperparams,
    k: int,
    e: DsV4LoadError,
    j: int,
    f: DsV4LoadError,
)
    requires
        fails_at(sources, hp, k, e),
        fails_at(sources, hp, j, f),
    ensures
        j == k,
        0 <= k < sources.len(),
        !sources[k].loads(hp),
        forall|i: int| 0 <= i < k ==> (#[trigger] sources[i]).loads(hp),
        e matches DsV4LoadError::Build { layer_index, cause } ==> layer_index == k as usize,
{
    if j < k {
        assert(sources[j].loads(hp));
    } else if k < j {
        assert(sources[k].loads(hp));
    }
}

/// What the errors of loading a layer say: where they come from, a failed build with
/// its layer's number, and then their cause.
pub proof fn law_load_error_texts(e: DsV4LoadError, name: Seq<char>)
    ensures
        e matches DsV4LoadError::Metadata(t) ==> e.message_text(name) == "DSv4 metadata: "@ + t@,
        e matches DsV4LoadError::TensorIo(t) ==> e.message_text(name) == "DSv4 tensor I/O: "@ + t@,
        e matches DsV4LoadError::Build { layer_index, cause } ==> e.message_text(name)
            == "DSv4 build layer "@ + decimal(layer_index as nat) + ": "@ + cause.message_text(
            name,
        ),
{
}

} // verus!
