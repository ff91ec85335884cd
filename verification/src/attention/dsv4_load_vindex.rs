//! Finding a DeepSeek V4 model's tensors in a vindex: which manifest entry a
//! tensor has, where its bytes lie, and what they hold.
//!
//! Manifests are lists of entries with keys such as
//! `layers.3.attn_q_a.weight`; the first entry of a key counts. Quantized
//! tensors are described as regions of a file, vectors are read out as words.
use vstd::prelude::*;
use vstd::string::*;
use crate::attention::dsv4_forward::Dsv4Dims;
use crate::attention::dsv4_storage_build::{shape_product, shape_size};
use crate::keyed::{find_key, first_key, keys_of, law_first_key, Keyed};
use crate::text::{copy_text, decimal, decimal_list, decimal_list_text, decimal_text, same_text};
use crate::words::{law_word_of_bytes, read_words, words_of};

verus! {

/// Ids of the storage types.
pub const TYPE_F32: u32 = 0;

pub const TYPE_F16: u32 = 1;

pub const TYPE_Q8_0: u32 = 8;

pub const TYPE_Q4_K: u32 = 12;

pub const TYPE_Q6_K: u32 = 14;

/// Why a model could not be loaded. The first three carry what another reader
/// said.
#[derive(Debug)]
pub enum Dsv4LoadError {
    Vindex(String),
    Model(String),
    Io(String),
    Parse(String),
    MissingManifestEntry(String, String),
}

/// What a [`Dsv4LoadError`] stands for.
pub enum LoadFault {
    Vindex(Seq<char>),
    Model(Seq<char>),
    Io(Seq<char>),
    Parse(Seq<char>),
    Missing(Seq<char>, Seq<char>),
}

impl View for Dsv4LoadError {
    type V = LoadFault;

    open spec fn view(&self) -> LoadFault {
        match self {
            Dsv4LoadError::Vindex(t) => LoadFault::Vindex(t@),
            Dsv4LoadError::Model(t) => LoadFault::Model(t@),
            Dsv4LoadError::Io(t) => LoadFault::Io(t@),
            Dsv4LoadError::Parse(t) => LoadFault::Parse(t@),
            Dsv4LoadError::MissingManifestEntry(k, m) => LoadFault::Missing(k@, m@),
        }
    }
}

impl LoadFault {
    /// The text of the message.
    pub open spec fn text(self) -> Seq<char> {
        match self {
            LoadFault::Vindex(t) => "vindex error: "@ + t,
            LoadFault::Model(t) => "model error: "@ + t,
            LoadFault::Io(t) => "io: "@ + t,
            LoadFault::Parse(t) => "parse: "@ + t,
            LoadFault::Missing(k, m) => "missing manifest entry: "@ + k + " (in "@ + m + ")"@,
        }
    }
}

impl Dsv4LoadError {
    /// The message for a reader.
    pub fn message(&self) -> (t: String)
        ensures
            t@ == self@.text(),
    {
        match self {
            Dsv4LoadError::Vindex(e) => {
                let mut t: String = String::from_str("vindex error: ");
                t.append(e.as_str());
                t
            },
            Dsv4LoadError::Model(e) => {
                let mut t: String = String::from_str("model error: ");
                t.append(e.as_str());
                t
            },
            Dsv4LoadError::Io(e) => {
                let mut t: String = String::from_str("io: ");
                t.append(e.as_str());
                t
            },
            Dsv4LoadError::Parse(e) => {
                let mut t: String = String::from_str("parse: ");
                t.append(e.as_str());
                t
            },
            Dsv4LoadError::MissingManifestEntry(k, m) => {
                let mut t: String = String::from_str("missing manifest entry: ");
                t.append(k.as_str());
                t.append(" (in ");
                t.append(m.as_str());
                t.append(")");
                t
            },
        }
    }
}

/// An entry of a manifest of quantized tensors.
#[derive(Clone, Debug)]
pub struct ManifestEntry {
    pub key: String,
    pub shape: Vec<usize>,
    pub format: String,
    pub offset: u64,
    pub length: u64,
}

/// An entry of the manifest of auxiliary tensors.
#[derive(Clone, Debug)]
pub struct AuxEntry {
    pub key: String,
    pub shape: Vec<usize>,
    pub dtype: String,
    pub offset: u64,
    pub length: u64,
}

/// An entry of the weight manifest.
#[derive(Clone, Debug)]
pub struct WeightEntry {
    pub key: String,
    pub kind: String,
    pub shape: Vec<usize>,
    pub offset: u64,
    pub length: u64,
    pub file: Option<String>,
    pub format: Option<String>,
}

/// A tensor as a region of a file: where its bytes lie, how they are stored and
/// what shape they have.
#[derive(Clone, Copy, Debug, PartialEq, Eq, Structural)]
pub struct TensorRegion {
    pub offset: usize,
    pub length: usize,
    pub dtype: u32,
    pub rows: usize,
    pub cols: usize,
}

// ---- keys and tags ---------------------------------------------------------

/// The key of a layer's tensor.
pub open spec fn key_of(layer: usize, suffix: Seq<char>) -> Seq<char> {
    "layers."@ + decimal(layer as nat) + "."@ + suffix
}

/// The key of a layer's tensor.
pub fn layer_key(layer: usize, suffix: &str) -> (t: String)
    ensures
        t@ == key_of(layer, suffix@),
{
    let mut t: String = String::from_str("layers.");
    let n: String = decimal_text(layer as u64);
    t.append(n.as_str());
    t.append(".");
    t.append(suffix);
    t
}

/// The file of a layer's experts: `layer_`, the layer in at least two digits,
/// and `.weights`.
pub fn layer_file_name(layer: usize) -> (t: String)
    ensures
        t@ == (if layer < 10 {
            "layer_0"@
        } else {
            "layer_"@
        }) + decimal(layer as nat) + ".weights"@,
{
    let mut t: String = if layer < 10 {
        String::from_str("layer_0")
    } else {
        String::from_str("layer_")
    };
    let n: String = decimal_text(layer as u64);
    t.append(n.as_str());
    t.append(".weights");
    t
}

/// The storage type that a tag names.
pub open spec fn tag_type(tag: Seq<char>) -> Option<u32> {
    if tag == "Q4_K"@ {
        Some(TYPE_Q4_K)
    } else if tag == "Q6_K"@ {
        Some(TYPE_Q6_K)
    } else if tag == "Q8_0"@ {
        Some(TYPE_Q8_0)
    } else if tag == "F16"@ {
        Some(TYPE_F16)
    } else if tag == "F32"@ {
        Some(TYPE_F32)
    } else {
        None
    }
}

/// The storage type that a tag names.
pub fn type_of_tag(tag: &String) -> (r: Option<u32>)
    ensures
        r == tag_type(tag@),
{
    if same_text(tag, "Q4_K") {
        Some(TYPE_Q4_K)
    } else if same_text(tag, "Q6_K") {
        Some(TYPE_Q6_K)
    } else if same_text(tag, "Q8_0") {
        Some(TYPE_Q8_0)
    } else if same_text(tag, "F16") {
        Some(TYPE_F16)
    } else if same_text(tag, "F32") {
        Some(TYPE_F32)
    } else {
        None
    }
}

impl Keyed for ManifestEntry {
    open spec fn key_text(&self) -> Seq<char> {
        self.key@
    }

    fn key(&self) -> (k: &String) {
        &self.key
    }
}

impl Keyed for AuxEntry {
    open spec fn key_text(&self) -> Seq<char> {
        self.key@
    }

    fn key(&self) -> (k: &String) {
        &self.key
    }
}

impl Keyed for WeightEntry {
    open spec fn key_text(&self) -> Seq<char> {
        self.key@
    }

    fn key(&self) -> (k: &String) {
        &self.key
    }
}

// ---- quantized tensors -----------------------------------------------------

/// The region of a quantized tensor: its entry must be there, with a tag that
/// names a storage type.
pub open spec fn quant_region(entries: Seq<ManifestEntry>, key: Seq<char>) -> Result<
    TensorRegion,
    LoadFault,
> {
    match first_key(keys_of(entries), key) {
        None => Err(LoadFault::Missing(key, "mla/interleaved"@)),
        Some(i) => {
            let e = entries[i];
            match tag_type(e.format@) {
                None => Err(LoadFault::Parse("unknown format tag "@ + e.format@)),
                Some(dtype) => Ok(
                    TensorRegion {
                        offset: e.offset as usize,
                        length: e.length as usize,
                        dtype,
                        rows: e.shape@[0],
                        cols: e.shape@[1],
                    },
                ),
            }
        },
    }
}

/// A tensor that is found has rows and columns.
pub open spec fn quant_entry_allowed(entries: Seq<ManifestEntry>, key: Seq<char>) -> bool {
    quant_region(entries, key) is Ok ==> entries[first_key(
        keys_of(entries),
        key,
    )->Some_0].shape@.len() >= 2
}

/// The region of a layer's quantized tensor.
pub fn manifest_quant(entries: &Vec<ManifestEntry>, layer: usize, suffix: &str) -> (r: Result<
    TensorRegion,
    Dsv4LoadError,
>)
    requires
        quant_entry_allowed(entries@, key_of(layer, suffix@)),
    ensures
        match quant_region(entries@, key_of(layer, suffix@)) {
            Ok(t) => r == Ok::<TensorRegion, Dsv4LoadError>(t),
            Err(f) => r is Err && r->Err_0@ == f,
        },
{
    let key: String = layer_key(layer, suffix);
    match find_key(entries, &key) {
        None => Err(Dsv4LoadError::MissingManifestEntry(key, copy_text("mla/interleaved"))),
        Some(i) => {
            let e: &ManifestEntry = &entries[i];
            match type_of_tag(&e.format) {
                None => {
                    let mut t: String = String::from_str("unknown format tag ");
                    t.append(e.format.as_str());
                    Err(Dsv4LoadError::Parse(t))
                },
                Some(dtype) => Ok(
                    TensorRegion {
                        offset: e.offset as usize,
                        length: e.length as usize,
                        dtype,
                        rows: e.shape[0],
                        cols: e.shape[1],
                    },
                ),
            }
        },
    }
}

// ---- auxiliary vectors -----------------------------------------------------

/// How many words an auxiliary vector has: as many as its shape says, but at
/// least as many as expected.
pub open spec fn aux_len(e: AuxEntry, expected: nat) -> nat {
    if shape_size(e.shape@) > expected {
        shape_size(e.shape@)
    } else {
        expected
    }
}

/// The words of an auxiliary vector, where it is there as single-precision
/// values and lies inside the file.
pub open spec fn aux_words(
    entries: Seq<AuxEntry>,
    bytes: Seq<u8>,
    key: Seq<char>,
    expected: nat,
) -> Option<Seq<u32>> {
    match first_key(keys_of(entries), key) {
        None => None,
        Some(i) => {
            let e = entries[i];
            let start = (e.offset as usize) as int;
            let end = start + aux_len(e, expected) * 4;
            if e.dtype@ != "f32"@ || end > bytes.len() {
                None
            } else {
                Some(words_of(bytes.subrange(start, end)))
            }
        },
    }
}

/// An auxiliary vector, where it is there.
pub fn aux_vector_opt(
    entries: &Vec<AuxEntry>,
    bytes: &[u8],
    layer: usize,
    suffix: &str,
    expected_len: usize,
) -> (r: Option<Vec<u32>>)
    ensures
        match aux_words(entries@, bytes@, key_of(layer, suffix@), expected_len as nat) {
            Some(w) => r is Some && r->Some_0@ == w,
            None => r is None,
        },
{
    let key: String = layer_key(layer, suffix);
    let total: usize = bytes.len();
    match find_key(entries, &key) {
        None => None,
        Some(i) => {
            let e: &AuxEntry = &entries[i];
            if !same_text(&e.dtype, "f32") {
                return None;
            }
            let size: usize = match shape_product(&e.shape) {
                Some(n) => n,
                None => return None,
            };
            let n: usize = if size > expected_len {
                size
            } else {
                expected_len
            };
            let start: usize = e.offset as usize;
            if start > total || n > (total - start) / 4 {
                return None;
            }
            let part: &[u8] = vstd::slice::slice_subrange(bytes, start, start + n * 4);
            Some(read_words(part))
        },
    }
}

/// The words of an auxiliary vector that must be there.
pub open spec fn aux_required(
    entries: Seq<AuxEntry>,
    bytes: Seq<u8>,
    key: Seq<char>,
    expected: nat,
) -> Result<Seq<u32>, LoadFault> {
    match aux_words(entries, bytes, key, expected) {
        Some(w) => Ok(w),
        None => Err(LoadFault::Missing(key, "aux"@)),
    }
}

/// An auxiliary vector that must be there.
pub fn aux_vector(
    entries: &Vec<AuxEntry>,
    bytes: &[u8],
    layer: usize,
    suffix: &str,
    expected_len: usize,
) -> (r: Result<Vec<u32>, Dsv4LoadError>)
    ensures
        match aux_required(entries@, bytes@, key_of(layer, suffix@), expected_len as nat) {
            Ok(w) => r is Ok && r->Ok_0@ == w,
            Err(f) => r is Err && r->Err_0@ == f,
        },
{
    match aux_vector_opt(entries, bytes, layer, suffix, expected_len) {
        Some(w) => Ok(w),
        None => Err(
            Dsv4LoadError::MissingManifestEntry(layer_key(layer, suffix), copy_text("aux")),
        ),
    }
}

// ---- norms and other weights -----------------------------------------------

/// The message for a norm that does not lie inside its file.
pub open spec fn norm_range_text(key: Seq<char>, start: nat, length: nat, size: nat) -> Seq<char> {
    "norm "@ + key + ": range "@ + decimal(start) + "+"@ + decimal(length)
        + " out of bounds (mmap "@ + decimal(size) + ")"@
}

/// The words of a norm: its entry must be there and lie inside the file.
pub open spec fn norm_words(bytes: Seq<u8>, entries: Seq<WeightEntry>, key: Seq<char>) -> Result<
    Seq<u32>,
    LoadFault,
> {
    match first_key(keys_of(entries), key) {
        None => Err(LoadFault::Missing(key, "weight_manifest"@)),
        Some(i) => {
            let e = entries[i];
            let start = (e.offset as usize) as int;
            let end = start + (e.length as usize) as int;
            if end > bytes.len() {
                Err(
                    LoadFault::Parse(
                        norm_range_text(key, start as nat, e.length as nat, bytes.len()),
                    ),
                )
            } else {
                Ok(words_of(bytes.subrange(start, end)))
            }
        },
    }
}

/// The words of a norm.
pub fn find_norm_vector(bytes: &[u8], entries: &Vec<WeightEntry>, key: &String) -> (r: Result<
    Vec<u32>,
    Dsv4LoadError,
>)
    ensures
        match norm_words(bytes@, entries@, key@) {
            Ok(w) => r is Ok && r->Ok_0@ == w,
            Err(f) => r is Err && r->Err_0@ == f,
        },
{
    let total: usize = bytes.len();
    match find_key(entries, key) {
        None => Err(
            Dsv4LoadError::MissingManifestEntry(
                copy_text(key.as_str()),
                copy_text("weight_manifest"),
            ),
        ),
        Some(i) => {
            let e: &WeightEntry = &entries[i];
            let start: usize = e.offset as usize;
            let length: usize = e.length as usize;
            if start > total || length > total - start {
                let mut t: String = String::from_str("norm ");
                t.append(key.as_str());
                t.append(": range ");
                let a: String = decimal_text(start as u64);
                t.append(a.as_str());
                t.append("+");
                let b: String = decimal_text(e.length);
                t.append(b.as_str());
                t.append(" out of bounds (mmap ");
                let c: String = decimal_text(total as u64);
                t.append(c.as_str());
                t.append(")");
                return Err(Dsv4LoadError::Parse(t));
            }
            let part: &[u8] = vstd::slice::slice_subrange(bytes, start, start + length);
            Ok(read_words(part))
        },
    }
}

/// The shape that a weight entry gives: rows and columns, or one row.
pub open spec fn entry_shape(shape: Seq<usize>) -> Option<(usize, usize)> {
    if shape.len() == 2 {
        Some((shape[0], shape[1]))
    } else if shape.len() == 1 {
        Some((1, shape[0]))
    } else {
        None
    }
}

/// The storage type that a weight entry gives; without a tag it is
/// single-precision values.
pub open spec fn entry_type(format: Option<String>) -> Option<u32> {
    match format {
        None => Some(TYPE_F32),
        Some(tag) => tag_type(tag@),
    }
}

/// The region of a weight: its entry must be there, with a tag that names a
/// storage type and one or two axes.
pub open spec fn weight_region(entries: Seq<WeightEntry>, key: Seq<char>) -> Result<
    TensorRegion,
    LoadFault,
> {
    match first_key(keys_of(entries), key) {
        None => Err(LoadFault::Missing(key, "weight_manifest"@)),
        Some(i) => {
            let e = entries[i];
            match entry_type(e.format) {
                None => Err(
                    LoadFault::Parse(
                        "weight_manifest "@ + key + ": unknown format "@ + e.format->Some_0@,
                    ),
                ),
                Some(dtype) => match entry_shape(e.shape@) {
                    None => Err(
                        LoadFault::Parse(
                            "weight_manifest "@ + key + ": unexpected shape ["@ + decimal_list(
                                e.shape@.map_values(|d: usize| d as u64),
                            ) + "]"@,
                        ),
                    ),
                    Some((rows, cols)) => Ok(
                        TensorRegion {
                            offset: e.offset as usize,
                            length: e.length as usize,
                            dtype,
                            rows,
                            cols,
                        },
                    ),
                },
            }
        },
    }
}

/// Sizes as 64-bit numbers.
fn widen(shape: &Vec<usize>) -> (w: Vec<u64>)
    ensures
        w@ == shape@.map_values(|d: usize| d as u64),
{
    let mut w: Vec<u64> = Vec::new();
    let mut i: usize = 0;
    while i < shape.len()
        invariant
            i <= shape@.len(),
            w@ == shape@.take(i as int).map_values(|d: usize| d as u64),
        decreases shape@.len() - i,
    {
        w.push(shape[i] as u64);
        i += 1;
        assert(w@ =~= shape@.take(i as int).map_values(|d: usize| d as u64));
    }
    assert(shape@.take(i as int) =~= shape@);
    w
}

/// The region of a weight.
pub fn find_weight_descriptor(entries: &Vec<WeightEntry>, key: &String) -> (r: Result<
    TensorRegion,
    Dsv4LoadError,
>)
    ensures
        match weight_region(entries@, key@) {
            Ok(t) => r == Ok::<TensorRegion, Dsv4LoadError>(t),
            Err(f) => r is Err && r->Err_0@ == f,
        },
{
    match find_key(entries, key) {
        None => Err(
            Dsv4LoadError::MissingManifestEntry(
                copy_text(key.as_str()),
                copy_text("weight_manifest"),
            ),
        ),
        Some(i) => {
            let e: &WeightEntry = &entries[i];
            let dtype: u32 = match &e.format {
                None => TYPE_F32,
                Some(tag) => match type_of_tag(tag) {
                    Some(d) => d,
                    None => {
                        let mut t: String = String::from_str("weight_manifest ");
                        t.append(key.as_str());
                        t.append(": unknown format ");
                        t.append(tag.as_str());
                        return Err(Dsv4LoadError::Parse(t));
                    },
                },
            };
            let rows: usize;
            let cols: usize;
            if e.shape.len() == 2 {
                rows = e.shape[0];
                cols = e.shape[1];
            } else if e.shape.len() == 1 {
                rows = 1;
                cols = e.shape[0];
            } else {
                let mut t: String = String::from_str("weight_manifest ");
                t.append(key.as_str());
                t.append(": unexpected shape [");
                let list: String = decimal_list_text(widen(&e.shape).as_slice());
                t.append(list.as_str());
                t.append("]");
                return Err(Dsv4LoadError::Parse(t));
            }
            Ok(
                TensorRegion {
                    offset: e.offset as usize,
                    length: e.length as usize,
                    dtype,
                    rows,
                    cols,
                },
            )
        },
    }
}

// ---- the output head -------------------------------------------------------

/// An entry is that of the output head.
pub open spec fn is_lm_head(e: WeightEntry) -> bool {
    e.key@ == "lm_head.weight"@ || e.key@ == "output.weight"@
}

/// The first entry of the output head.
pub open spec fn first_lm_head(entries: Seq<WeightEntry>) -> Option<WeightEntry>
    decreases entries.len(),
{
    if entries.len() == 0 {
        None
    } else if is_lm_head(entries[0]) {
        Some(entries[0])
    } else {
        first_lm_head(entries.skip(1))
    }
}

/// The storage type of the output head: four-bit where it lies in the file of
/// that name, else what the tag says. A tag that names no such type counts as
/// single precision.
pub open spec fn lm_head_type(e: WeightEntry) -> u32 {
    if e.file matches Some(f) && f@ == "lm_head_q4.bin"@ {
        TYPE_Q4_K
    } else {
        match e.format {
            Some(tag) => if tag@ == "Q4_K"@ {
                TYPE_Q4_K
            } else if tag@ == "Q8_0"@ {
                TYPE_Q8_0
            } else if tag@ == "F16"@ {
                TYPE_F16
            } else {
                TYPE_F32
            },
            None => TYPE_F32,
        }
    }
}

/// How many bytes the four-bit blocks of a whole head take: 144 for every 256
/// values.
pub open spec fn q4k_bytes(vocab: nat, hidden: nat) -> nat {
    (vocab * hidden / 256) * 144
}

/// The region of the output head: its entry's, or the whole file in four-bit
/// blocks where it has none.
pub open spec fn lm_head_region(entries: Seq<WeightEntry>, vocab: usize, hidden: usize) ->
    TensorRegion {
    match first_lm_head(entries) {
        Some(e) => TensorRegion {
            offset: e.offset as usize,
            length: e.length as usize,
            dtype: lm_head_type(e),
            rows: if e.shape@.len() == 2 {
                e.shape@[0]
            } else {
                vocab
            },
            cols: if e.shape@.len() == 2 {
                e.shape@[1]
            } else {
                hidden
            },
        },
        None => TensorRegion {
            offset: 0,
            length: q4k_bytes(vocab as nat, hidden as nat) as usize,
            dtype: TYPE_Q4_K,
            rows: vocab,
            cols: hidden,
        },
    }
}

fn lm_head_dtype(e: &WeightEntry) -> (d: u32)
    ensures
        d == lm_head_type(*e),
{
    if let Some(f) = &e.file {
        if same_text(f, "lm_head_q4.bin") {
            return TYPE_Q4_K;
        }
    }
    match &e.format {
        Some(tag) => if same_text(tag, "Q4_K") {
            TYPE_Q4_K
        } else if same_text(tag, "Q8_0") {
            TYPE_Q8_0
        } else if same_text(tag, "F16") {
            TYPE_F16
        } else {
            TYPE_F32
        },
        None => TYPE_F32,
    }
}

/// Whether an entry names the output head.
pub fn has_lm_head(entries: &Vec<WeightEntry>) -> (r: bool)
    ensures
        r == (first_lm_head(entries@) is Some),
{
    let mut i: usize = 0;
    assert(entries@.skip(0) =~= entries@);
    while i < entries.len()
        invariant
            i <= entries@.len(),
            first_lm_head(entries@) == first_lm_head(entries@.skip(i as int)),
        decreases entries@.len() - i,
    {
        assert(entries@.skip(i as int).skip(1) =~= entries@.skip(i + 1));
        let key: &String = &entries[i].key;
        if same_text(key, "lm_head.weight") || same_text(key, "output.weight") {
            return true;
        }
        i += 1;
    }
    false
}

/// The region of the output head.
pub fn find_lm_head_descriptor(entries: &Vec<WeightEntry>, vocab: usize, hidden: usize) -> (r:
    TensorRegion)
    requires
        first_lm_head(entries@) is None ==> vocab * hidden <= usize::MAX,
    ensures
        r == lm_head_region(entries@, vocab, hidden),
{
    let mut i: usize = 0;
    assert(entries@.skip(0) =~= entries@);
    while i < entries.len()
        invariant
            i <= entries@.len(),
            first_lm_head(entries@) == first_lm_head(entries@.skip(i as int)),
        decreases entries@.len() - i,
    {
        let e: &WeightEntry = &entries[i];
        assert(entries@.skip(i as int).skip(1) =~= entries@.skip(i + 1));
        if same_text(&e.key, "lm_head.weight") || same_text(&e.key, "output.weight") {
            let two: bool = e.shape.len() == 2;
            return TensorRegion {
                offset: e.offset as usize,
                length: e.length as usize,
                dtype: lm_head_dtype(e),
                rows: if two {
                    e.shape[0]
                } else {
                    vocab
                },
                cols: if two {
                    e.shape[1]
                } else {
                    hidden
                },
            };
        }
        i += 1;
    }
    let blocks: usize = vocab * hidden / 256;
    TensorRegion { offset: 0, length: blocks * 144, dtype: TYPE_Q4_K, rows: vocab, cols: hidden }
}

// ---- one layer's attention -------------------------------------------------

/// The files of a vindex: manifests, and the bytes of those that hold vectors.
pub struct VindexFiles<'a> {
    pub mla: Vec<ManifestEntry>,
    pub interleaved: Vec<ManifestEntry>,
    pub aux: Vec<AuxEntry>,
    pub weights: Vec<WeightEntry>,
    pub aux_bytes: &'a [u8],
    pub norms_bytes: &'a [u8],
}

/// One layer's attention weights: regions of the quantized tensors, and the
/// words of the vectors.
pub struct AttnPlan {
    pub q_a: TensorRegion,
    pub q_b: TensorRegion,
    pub kv: TensorRegion,
    pub output_a: TensorRegion,
    pub output_b: TensorRegion,
    pub attn_norm: Vec<u32>,
    pub q_a_norm: Vec<u32>,
    pub kv_a_norm: Vec<u32>,
    pub sinks: Vec<u32>,
}

/// What an [`AttnPlan`] stands for.
pub struct AttnPlanModel {
    pub q_a: TensorRegion,
    pub q_b: TensorRegion,
    pub kv: TensorRegion,
    pub output_a: TensorRegion,
    pub output_b: TensorRegion,
    pub attn_norm: Seq<u32>,
    pub q_a_norm: Seq<u32>,
    pub kv_a_norm: Seq<u32>,
    pub sinks: Seq<u32>,
}

impl View for AttnPlan {
    type V = AttnPlanModel;

    open spec fn view(&self) -> AttnPlanModel {
        AttnPlanModel {
            q_a: self.q_a,
            q_b: self.q_b,
            kv: self.kv,
            output_a: self.output_a,
            output_b: self.output_b,
            attn_norm: self.attn_norm@,
            q_a_norm: self.q_a_norm@,
            kv_a_norm: self.kv_a_norm@,
            sinks: self.sinks@,
        }
    }
}

/// The lookups before number `k` found what they looked for.
pub open spec fn found_before(found: Seq<Result<TensorRegion, LoadFault>>, k: int) -> bool {
    forall|j: int| 0 <= j < k ==> #[trigger] found[j] is Ok
}

/// The attention's quantized tensors that are come to, and found, have rows and
/// columns.
pub open spec fn attn_entries_allowed(mla: Seq<ManifestEntry>, layer: usize) -> bool {
    let found = attn_regions(mla, layer);
    &&& quant_entry_allowed(mla, key_of(layer, "attn_q_a.weight"@))
    &&& found_before(found, 1) ==> quant_entry_allowed(mla, key_of(layer, "attn_q_b.weight"@))
    &&& found_before(found, 2) ==> quant_entry_allowed(mla, key_of(layer, "attn_kv.weight"@))
    &&& found_before(found, 3) ==> quant_entry_allowed(mla, key_of(layer, "attn_output_a.weight"@))
    &&& found_before(found, 4) ==> quant_entry_allowed(mla, key_of(layer, "attn_output_b.weight"@))
}

/// A tensor that is found has rows and columns.
fn has_axes(entries: &Vec<ManifestEntry>, layer: usize, suffix: &str) -> (r: bool)
    ensures
        r == quant_entry_allowed(entries@, key_of(layer, suffix@)),
{
    let key: String = layer_key(layer, suffix);
    match find_key(entries, &key) {
        None => true,
        Some(i) => match type_of_tag(&entries[i].format) {
            None => true,
            Some(_) => entries[i].shape.len() >= 2,
        },
    }
}

/// Whether the attention's quantized tensors that are come to, and found, have rows
/// and columns.
pub fn attn_readable(mla: &Vec<ManifestEntry>, layer: usize) -> (r: bool)
    ensures
        r == attn_entries_allowed(mla@, layer),
{
    let ghost found = attn_regions(mla@, layer);
    if !has_axes(mla, layer, "attn_q_a.weight") {
        return false;
    }
    if manifest_quant(mla, layer, "attn_q_a.weight").is_err() {
        assert(found[0] is Err);
        return true;
    }
    if !has_axes(mla, layer, "attn_q_b.weight") {
        return false;
    }
    if manifest_quant(mla, layer, "attn_q_b.weight").is_err() {
        assert(found[1] is Err);
        return true;
    }
    if !has_axes(mla, layer, "attn_kv.weight") {
        return false;
    }
    if manifest_quant(mla, layer, "attn_kv.weight").is_err() {
        assert(found[2] is Err);
        return true;
    }
    if !has_axes(mla, layer, "attn_output_a.weight") {
        return false;
    }
    if manifest_quant(mla, layer, "attn_output_a.weight").is_err() {
        assert(found[3] is Err);
        return true;
    }
    has_axes(mla, layer, "attn_output_b.weight")
}

/// The first failure of a list of regions that are looked up in order.
pub open spec fn regions_fault(found: Seq<Result<TensorRegion, LoadFault>>) -> Option<LoadFault>
    decreases found.len(),
{
    if found.len() == 0 {
        None
    } else {
        match found[0] {
            Err(f) => Some(f),
            Ok(_) => regions_fault(found.skip(1)),
        }
    }
}

/// The lookups of a layer's quantized attention tensors, in order.
pub open spec fn attn_regions(mla: Seq<ManifestEntry>, layer: usize) -> Seq<
    Result<TensorRegion, LoadFault>,
> {
    seq![
        quant_region(mla, key_of(layer, "attn_q_a.weight"@)),
        quant_region(mla, key_of(layer, "attn_q_b.weight"@)),
        quant_region(mla, key_of(layer, "attn_kv.weight"@)),
        quant_region(mla, key_of(layer, "attn_output_a.weight"@)),
        quant_region(mla, key_of(layer, "attn_output_b.weight"@)),
    ]
}

/// One layer's attention weights, or the first lookup that fails: the quantized
/// tensors, the input norm, the two latent norms, the sinks.
pub open spec fn attn_plan(files: VindexFiles, layer: usize, dims: Dsv4Dims) -> Result<
    AttnPlanModel,
    LoadFault,
> {
    let found = attn_regions(files.mla@, layer);
    let aux = files.aux@;
    let bytes = files.aux_bytes@;
    match regions_fault(found) {
        Some(f) => Err(f),
        None => match norm_words(
            files.norms_bytes@,
            files.weights@,
            key_of(layer, "input_layernorm.weight"@),
        ) {
            Err(f) => Err(f),
            Ok(attn_norm) => match aux_required(
                aux,
                bytes,
                key_of(layer, "attn_q_a_norm.weight"@),
                dims.q_lora_rank as nat,
            ) {
                Err(f) => Err(f),
                Ok(q_a_norm) => match aux_required(
                    aux,
                    bytes,
                    key_of(layer, "attn_kv_a_norm.weight"@),
                    dims.kv_lora_rank as nat,
                ) {
                    Err(f) => Err(f),
                    Ok(kv_a_norm) => match aux_required(
                        aux,
                        bytes,
                        key_of(layer, "attn_sinks.weight"@),
                        dims.n_heads as nat,
                    ) {
                        Err(f) => Err(f),
                        Ok(sinks) => Ok(
                            AttnPlanModel {
                                q_a: found[0]->Ok_0,
                                q_b: found[1]->Ok_0,
                                kv: found[2]->Ok_0,
                                output_a: found[3]->Ok_0,
                                output_b: found[4]->Ok_0,
                                attn_norm,
                                q_a_norm,
                                kv_a_norm,
                                sinks,
                            },
                        ),
                    },
                },
            },
        },
    }
}

/// The first failure of a list, told from its entries.
proof fn lemma_regions_fault(found: Seq<Result<TensorRegion, LoadFault>>, k: int)
    requires
        0 <= k <= found.len(),
        forall|j: int| 0 <= j < k ==> #[trigger] found[j] is Ok,
    ensures
        k == found.len() ==> regions_fault(found) is None,
        k < found.len() && found[k] is Err ==> regions_fault(found) == Some(found[k]->Err_0),
    decreases found.len(),
{
    if found.len() > 0 && k > 0 {
        let rest = found.skip(1);
        assert(found[0] is Ok);
        assert forall|j: int| 0 <= j < k - 1 implies #[trigger] rest[j] is Ok by {
            assert(found[j + 1] is Ok);
        }
        lemma_regions_fault(rest, k - 1);
    }
}

/// One layer's attention weights.
pub fn build_attn_weights(files: &VindexFiles, layer: usize, dims: &Dsv4Dims) -> (r: Result<
    AttnPlan,
    Dsv4LoadError,
>)
    requires
        attn_entries_allowed(files.mla@, layer),
    ensures
        match attn_plan(*files, layer, *dims) {
            Ok(p) => r is Ok && r->Ok_0@ == p,
            Err(f) => r is Err && r->Err_0@ == f,
        },
{
    let ghost found = attn_regions(files.mla@, layer);
    let q_a: TensorRegion = match manifest_quant(&files.mla, layer, "attn_q_a.weight") {
        Ok(t) => t,
        Err(e) => {
            proof {
                lemma_regions_fault(found, 0);
            }
            return Err(e);
        },
    };
    let q_b: TensorRegion = match manifest_quant(&files.mla, layer, "attn_q_b.weight") {
        Ok(t) => t,
        Err(e) => {
            proof {
                lemma_regions_fault(found, 1);
            }
            return Err(e);
        },
    };
    let kv: TensorRegion = match manifest_quant(&files.mla, layer, "attn_kv.weight") {
        Ok(t) => t,
        Err(e) => {
            proof {
                lemma_regions_fault(found, 2);
            }
            return Err(e);
        },
    };
    let output_a: TensorRegion = match manifest_quant(&files.mla, layer, "attn_output_a.weight") {
        Ok(t) => t,
        Err(e) => {
            proof {
                lemma_regions_fault(found, 3);
            }
            return Err(e);
        },
    };
    let output_b: TensorRegion = match manifest_quant(&files.mla, layer, "attn_output_b.weight") {
        Ok(t) => t,
        Err(e) => {
            proof {
                lemma_regions_fault(found, 4);
            }
            return Err(e);
        },
    };
    proof {
        lemma_regions_fault(found, 5);
    }
    let norm_key: String = layer_key(layer, "input_layernorm.weight");
    let attn_norm: Vec<u32> = match find_norm_vector(
        files.norms_bytes,
        &files.weights,
        &norm_key,
    ) {
        Ok(w) => w,
        Err(e) => return Err(e),
    };
    let q_a_norm: Vec<u32> = match aux_vector(
        &files.aux,
        files.aux_bytes,
        layer,
        "attn_q_a_norm.weight",
        dims.q_lora_rank,
    ) {
        Ok(w) => w,
        Err(e) => return Err(e),
    };
    let kv_a_norm: Vec<u32> = match aux_vector(
        &files.aux,
        files.aux_bytes,
        layer,
        "attn_kv_a_norm.weight",
        dims.kv_lora_rank,
    ) {
        Ok(w) => w,
        Err(e) => return Err(e),
    };
    let sinks: Vec<u32> = match aux_vector(
        &files.aux,
        files.aux_bytes,
        layer,
        "attn_sinks.weight",
        dims.n_heads,
    ) {
        Ok(w) => w,
        Err(e) => return Err(e),
    };
    Ok(
        AttnPlan {
            q_a,
            q_b,
            kv,
            output_a,
            output_b,
            attn_norm,
            q_a_norm,
            kv_a_norm,
            sinks,
        },
    )
}

// ---- one layer's experts ---------------------------------------------------

/// How a layer's expert file is stored.
#[derive(Clone, Copy, Debug, PartialEq, Eq, Structural)]
pub enum LayerWeightFormat {
    Q4K,
    Q6K,
    Q8_0,
    F32,
    F16,
    /// A format that experts cannot be read from.
    Other,
}

/// The header of a layer's expert file: per expert where its fused gate and up
/// block and its down block lie.
#[derive(Clone, Debug)]
pub struct LayerHeader {
    pub format: LayerWeightFormat,
    pub num_entries: usize,
    pub blocks: Vec<ExpertBlocks>,
}

/// Where one expert's blocks lie.
#[derive(Clone, Copy, Debug, PartialEq, Eq, Structural)]
pub struct ExpertBlocks {
    pub gate_up_offset: usize,
    pub gate_up_bytes: usize,
    pub down_offset: usize,
    pub down_bytes: usize,
}

/// The storage type of a format.
pub open spec fn format_type(f: LayerWeightFormat) -> Option<u32> {
    match f {
        LayerWeightFormat::Q4K => Some(TYPE_Q4_K),
        LayerWeightFormat::Q6K => Some(TYPE_Q6_K),
        LayerWeightFormat::Q8_0 => Some(TYPE_Q8_0),
        LayerWeightFormat::F32 => Some(TYPE_F32),
        LayerWeightFormat::F16 => Some(TYPE_F16),
        LayerWeightFormat::Other => None,
    }
}

/// An expert's fused gate and up block.
pub open spec fn gate_up_region(b: ExpertBlocks, dtype: u32, dims: Dsv4Dims) -> TensorRegion {
    TensorRegion {
        offset: b.gate_up_offset,
        length: b.gate_up_bytes,
        dtype,
        rows: (2 * dims.ffn_dim) as usize,
        cols: dims.hidden,
    }
}

/// An expert's down block.
pub open spec fn down_region(b: ExpertBlocks, dtype: u32, dims: Dsv4Dims) -> TensorRegion {
    TensorRegion {
        offset: b.down_offset,
        length: b.down_bytes,
        dtype,
        rows: dims.hidden,
        cols: dims.ffn_dim,
    }
}

/// What is wrong with a layer's expert file, if anything is. `path` and
/// `format_text` are how the file and its format are written.
pub open spec fn experts_fault(
    header: Option<LayerHeader>,
    path: Seq<char>,
    format_text: Seq<char>,
    dims: Dsv4Dims,
) -> Option<LoadFault> {
    match header {
        None => Some(LoadFault::Parse("layer file "@ + path + ": header parse failed"@)),
        Some(h) => match format_type(h.format) {
            None => Some(
                LoadFault::Parse(
                    "layer file "@ + path + ": unsupported quant format "@ + format_text,
                ),
            ),
            Some(_) => if h.num_entries != dims.num_experts {
                Some(
                    LoadFault::Parse(
                        "layer file "@ + path + ": expected "@ + decimal(dims.num_experts as nat)
                            + " experts, got "@ + decimal(h.num_entries as nat),
                    ),
                )
            } else {
                None
            },
        },
    }
}

/// The storage type of a layer's expert file, or what is wrong with the file.
pub fn check_experts(
    header: &Option<LayerHeader>,
    path: &str,
    format_text: &str,
    dims: &Dsv4Dims,
) -> (r: Result<u32, Dsv4LoadError>)
    ensures
        match experts_fault(*header, path@, format_text@, *dims) {
            Some(f) => r is Err && r->Err_0@ == f,
            None => r is Ok && format_type(header->Some_0.format) == Some(r->Ok_0),
        },
{
    let h: &LayerHeader = match header {
        Some(h) => h,
        None => {
            let mut t: String = String::from_str("layer file ");
            t.append(path);
            t.append(": header parse failed");
            return Err(Dsv4LoadError::Parse(t));
        },
    };
    let dtype: u32 = match h.format {
        LayerWeightFormat::Q4K => TYPE_Q4_K,
        LayerWeightFormat::Q6K => TYPE_Q6_K,
        LayerWeightFormat::Q8_0 => TYPE_Q8_0,
        LayerWeightFormat::F32 => TYPE_F32,
        LayerWeightFormat::F16 => TYPE_F16,
        LayerWeightFormat::Other => {
            let mut t: String = String::from_str("layer file ");
            t.append(path);
            t.append(": unsupported quant format ");
            t.append(format_text);
            return Err(Dsv4LoadError::Parse(t));
        },
    };
    if h.num_entries != dims.num_experts {
        let mut t: String = String::from_str("layer file ");
        t.append(path);
        t.append(": expected ");
        let want: String = decimal_text(dims.num_experts as u64);
        t.append(want.as_str());
        t.append(" experts, got ");
        let got: String = decimal_text(h.num_entries as u64);
        t.append(got.as_str());
        return Err(Dsv4LoadError::Parse(t));
    }
    Ok(dtype)
}

/// The regions of every expert's blocks: the fused gate and up blocks, and the
/// down blocks.
pub fn load_per_layer_moe(
    header: &Option<LayerHeader>,
    path: &str,
    format_text: &str,
    dims: &Dsv4Dims,
) -> (r: Result<(Vec<TensorRegion>, Vec<TensorRegion>), Dsv4LoadError>)
    requires
        experts_fault(*header, path@, format_text@, *dims) is None ==> 2 * dims.ffn_dim
            <= usize::MAX,
    ensures
        match experts_fault(*header, path@, format_text@, *dims) {
            Some(f) => r is Err && r->Err_0@ == f,
            None => {
                let h = header->Some_0;
                let dtype = format_type(h.format)->Some_0;
                &&& r is Ok
                &&& r->Ok_0.0@ == h.blocks@.map_values(
                    |b: ExpertBlocks| gate_up_region(b, dtype, *dims),
                )
                &&& r->Ok_0.1@ == h.blocks@.map_values(
                    |b: ExpertBlocks| down_region(b, dtype, *dims),
                )
            },
        },
{
    let dtype: u32 = match check_experts(header, path, format_text, dims) {
        Ok(d) => d,
        Err(e) => return Err(e),
    };
    let h: &LayerHeader = header.as_ref().unwrap();
    let mut gate_ups: Vec<TensorRegion> = Vec::new();
    let mut downs: Vec<TensorRegion> = Vec::new();
    let mut i: usize = 0;
    while i < h.blocks.len()
        invariant
            i <= h.blocks@.len(),
            2 * dims.ffn_dim <= usize::MAX,
            gate_ups@ == h.blocks@.take(i as int).map_values(
                |b: ExpertBlocks| gate_up_region(b, dtype, *dims),
            ),
            downs@ == h.blocks@.take(i as int).map_values(
                |b: ExpertBlocks| down_region(b, dtype, *dims),
            ),
        decreases h.blocks@.len() - i,
    {
        let b: ExpertBlocks = h.blocks[i];
        gate_ups.push(
            TensorRegion {
                offset: b.gate_up_offset,
                length: b.gate_up_bytes,
                dtype,
                rows: 2 * dims.ffn_dim,
                cols: dims.hidden,
            },
        );
        downs.push(
            TensorRegion {
                offset: b.down_offset,
                length: b.down_bytes,
                dtype,
                rows: dims.hidden,
                cols: dims.ffn_dim,
            },
        );
        i += 1;
        assert(gate_ups@ =~= h.blocks@.take(i as int).map_values(
            |b: ExpertBlocks| gate_up_region(b, dtype, *dims),
        ));
        assert(downs@ =~= h.blocks@.take(i as int).map_values(
            |b: ExpertBlocks| down_region(b, dtype, *dims),
        ));
    }
    assert(h.blocks@.take(i as int) =~= h.blocks@);
    Ok((gate_ups, downs))
}

/// How many bytes a router has.
pub open spec fn router_bytes(dims: Dsv4Dims) -> nat {
    dims.num_experts as nat * dims.hidden as nat * 4
}

/// The words of a layer's router: its entry must be there, and its bytes must
/// be a single-precision value for every expert and hidden dimension.
pub open spec fn router_words(
    norms_bytes: Seq<u8>,
    weights: Seq<WeightEntry>,
    layer: usize,
    dims: Dsv4Dims,
) -> Result<Seq<u32>, LoadFault> {
    let key = key_of(layer, "ffn_gate_inp.weight"@);
    match weight_region(weights, key) {
        Err(f) => Err(f),
        Ok(t) => if t.length != router_bytes(dims) {
            Err(
                LoadFault::Parse(
                    "router "@ + key + ": expected "@ + decimal(router_bytes(dims))
                        + " bytes, got "@ + decimal(t.length as nat),
                ),
            )
        } else {
            Ok(words_of(norms_bytes.subrange(t.offset as int, t.offset + t.length)))
        },
    }
}

/// A router that is found lies inside its file, and has a size.
pub open spec fn router_allowed(
    norms_bytes: Seq<u8>,
    weights: Seq<WeightEntry>,
    layer: usize,
    dims: Dsv4Dims,
) -> bool {
    weight_region(weights, key_of(layer, "ffn_gate_inp.weight"@)) matches Ok(t) ==> t.offset
        + t.length <= norms_bytes.len() && router_bytes(dims) <= usize::MAX
}

/// The words of a layer's router.
pub fn read_router(
    norms_bytes: &[u8],
    weights: &Vec<WeightEntry>,
    layer: usize,
    dims: &Dsv4Dims,
) -> (r: Result<Vec<u32>, Dsv4LoadError>)
    requires
        router_allowed(norms_bytes@, weights@, layer, *dims),
    ensures
        match router_words(norms_bytes@, weights@, layer, *dims) {
            Ok(w) => r is Ok && r->Ok_0@ == w,
            Err(f) => r is Err && r->Err_0@ == f,
        },
{
    let key: String = layer_key(layer, "ffn_gate_inp.weight");
    let total: usize = norms_bytes.len();
    match find_weight_descriptor(weights, &key) {
        Err(e) => Err(e),
        Ok(t) => {
            assert(dims.num_experts * dims.hidden <= dims.num_experts * dims.hidden * 4)
                by (nonlinear_arith)
                requires
                    dims.num_experts * dims.hidden >= 0,
            ;
            let want: usize = dims.num_experts * dims.hidden * 4;
            if t.length != want {
                let mut m: String = String::from_str("router ");
                m.append(key.as_str());
                m.append(": expected ");
                let a: String = decimal_text(want as u64);
                m.append(a.as_str());
                m.append(" bytes, got ");
                let b: String = decimal_text(t.length as u64);
                m.append(b.as_str());
                return Err(Dsv4LoadError::Parse(m));
            }
            let part: &[u8] = vstd::slice::slice_subrange(
                norms_bytes,
                t.offset,
                t.offset + t.length,
            );
            Ok(read_words(part))
        },
    }
}

/// One layer's expert weights.
pub struct MoePlan {
    pub router: Vec<u32>,
    pub router_bias: Option<Vec<u32>>,
    pub expert_gate_ups: Vec<TensorRegion>,
    pub expert_downs: Vec<TensorRegion>,
    pub shared_gate: TensorRegion,
    pub shared_up: TensorRegion,
    pub shared_down: TensorRegion,
    pub ffn_norm: Vec<u32>,
}

/// What a [`MoePlan`] stands for.
pub struct MoePlanModel {
    pub router: Seq<u32>,
    pub router_bias: Option<Seq<u32>>,
    pub expert_gate_ups: Seq<TensorRegion>,
    pub expert_downs: Seq<TensorRegion>,
    pub shared_gate: TensorRegion,
    pub shared_up: TensorRegion,
    pub shared_down: TensorRegion,
    pub ffn_norm: Seq<u32>,
}

impl View for MoePlan {
    type V = MoePlanModel;

    open spec fn view(&self) -> MoePlanModel {
        MoePlanModel {
            router: self.router@,
            router_bias: crate::attention::dsv4_vindex_attn::optional_words(self.router_bias),
            expert_gate_ups: self.expert_gate_ups@,
            expert_downs: self.expert_downs@,
            shared_gate: self.shared_gate,
            shared_up: self.shared_up,
            shared_down: self.shared_down,
            ffn_norm: self.ffn_norm@,
        }
    }
}

/// A layer's expert file as it was opened: how it is called, its header where
/// that could be read, and how its format is written.
pub struct ExpertFile {
    pub path: String,
    pub format_text: String,
    pub header: Option<LayerHeader>,
}

/// The lookups of a layer's shared-expert tensors, in order.
pub open spec fn shared_regions(interleaved: Seq<ManifestEntry>, layer: usize) -> Seq<
    Result<TensorRegion, LoadFault>,
> {
    seq![
        quant_region(interleaved, key_of(layer, "ffn_gate_shexp.weight"@)),
        quant_region(interleaved, key_of(layer, "ffn_up_shexp.weight"@)),
        quant_region(interleaved, key_of(layer, "ffn_down_shexp.weight"@)),
    ]
}

/// One layer's expert weights, or the first lookup that fails: the router, the
/// expert file, the shared expert, the norm. A missing router bias is no
/// failure.
pub open spec fn moe_plan(
    files: VindexFiles,
    layer: usize,
    dims: Dsv4Dims,
    experts: ExpertFile,
) -> Result<MoePlanModel, LoadFault> {
    let shared = shared_regions(files.interleaved@, layer);
    match router_words(files.norms_bytes@, files.weights@, layer, dims) {
        Err(f) => Err(f),
        Ok(router) => match experts_fault(
            experts.header,
            experts.path@,
            experts.format_text@,
            dims,
        ) {
            Some(f) => Err(f),
            None => match regions_fault(shared) {
                Some(f) => Err(f),
                None => match norm_words(
                    files.norms_bytes@,
                    files.weights@,
                    key_of(layer, "post_attention_layernorm.weight"@),
                ) {
                    Err(f) => Err(f),
                    Ok(ffn_norm) => {
                        let h = experts.header->Some_0;
                        let dtype = format_type(h.format)->Some_0;
                        Ok(
                            MoePlanModel {
                                router,
                                router_bias: aux_words(
                                    files.aux@,
                                    files.aux_bytes@,
                                    key_of(layer, "exp_probs_b.bias"@),
                                    dims.num_experts as nat,
                                ),
                                expert_gate_ups: h.blocks@.map_values(
                                    |b: ExpertBlocks| gate_up_region(b, dtype, dims),
                                ),
                                expert_downs: h.blocks@.map_values(
                                    |b: ExpertBlocks| down_region(b, dtype, dims),
                                ),
                                shared_gate: shared[0]->Ok_0,
                                shared_up: shared[1]->Ok_0,
                                shared_down: shared[2]->Ok_0,
                                ffn_norm,
                            },
                        )
                    },
                },
            },
        },
    }
}

/// What the lookups of a layer's experts may rely on, each where those before it
/// found what they looked for: a router that is found lies inside its file, twice
/// the width of the experts is a size, and tensors that are found have rows and
/// columns.
pub open spec fn moe_entries_allowed(
    files: VindexFiles,
    layer: usize,
    dims: Dsv4Dims,
    experts: ExpertFile,
) -> bool {
    let shared = shared_regions(files.interleaved@, layer);
    let inter = files.interleaved@;
    &&& router_allowed(files.norms_bytes@, files.weights@, layer, dims)
    &&& router_words(files.norms_bytes@, files.weights@, layer, dims) is Ok && experts_fault(
        experts.header,
        experts.path@,
        experts.format_text@,
        dims,
    ) is None ==> {
        &&& 2 * dims.ffn_dim <= usize::MAX
        &&& quant_entry_allowed(inter, key_of(layer, "ffn_gate_shexp.weight"@))
        &&& found_before(shared, 1) ==> quant_entry_allowed(
            inter,
            key_of(layer, "ffn_up_shexp.weight"@),
        )
        &&& found_before(shared, 2) ==> quant_entry_allowed(
            inter,
            key_of(layer, "ffn_down_shexp.weight"@),
        )
    }
}

/// Whether a router that is found lies inside its file, and has a size.
fn router_readable(
    norms_bytes: &[u8],
    weights: &Vec<WeightEntry>,
    layer: usize,
    dims: &Dsv4Dims,
) -> (r: bool)
    ensures
        r == router_allowed(norms_bytes@, weights@, layer, *dims),
{
    let key: String = layer_key(layer, "ffn_gate_inp.weight");
    let total: usize = norms_bytes.len();
    match find_weight_descriptor(weights, &key) {
        Err(_) => true,
        Ok(t) => {
            if t.offset > total || t.length > total - t.offset {
                return false;
            }
            match dims.num_experts.checked_mul(dims.hidden) {
                None => {
                    assert(dims.num_experts * dims.hidden <= dims.num_experts * dims.hidden * 4)
                        by (nonlinear_arith)
                        requires
                            dims.num_experts * dims.hidden >= 0,
                    ;
                    false
                },
                Some(n) => n <= usize::MAX / 4,
            }
        },
    }
}

/// Whether the lookups of a layer's experts can be made.
pub fn moe_readable(
    files: &VindexFiles,
    layer: usize,
    dims: &Dsv4Dims,
    experts: &ExpertFile,
) -> (r: bool)
    ensures
        r == moe_entries_allowed(*files, layer, *dims, *experts),
{
    let ghost shared = shared_regions(files.interleaved@, layer);
    if !router_readable(files.norms_bytes, &files.weights, layer, dims) {
        return false;
    }
    if read_router(files.norms_bytes, &files.weights, layer, dims).is_err() {
        return true;
    }
    let path: &str = experts.path.as_str();
    if check_experts(&experts.header, path, experts.format_text.as_str(), dims).is_err() {
        return true;
    }
    if dims.ffn_dim > usize::MAX / 2 || !has_axes(
        &files.interleaved,
        layer,
        "ffn_gate_shexp.weight",
    ) {
        return false;
    }
    if manifest_quant(&files.interleaved, layer, "ffn_gate_shexp.weight").is_err() {
        assert(shared[0] is Err);
        return true;
    }
    if !has_axes(&files.interleaved, layer, "ffn_up_shexp.weight") {
        return false;
    }
    if manifest_quant(&files.interleaved, layer, "ffn_up_shexp.weight").is_err() {
        assert(shared[1] is Err);
        return true;
    }
    has_axes(&files.interleaved, layer, "ffn_down_shexp.weight")
}

/// One layer's expert weights.
pub fn build_moe_weights(
    files: &VindexFiles,
    layer: usize,
    dims: &Dsv4Dims,
    experts: &ExpertFile,
) -> (r: Result<MoePlan, Dsv4LoadError>)
    requires
        moe_entries_allowed(*files, layer, *dims, *experts),
    ensures
        match moe_plan(*files, layer, *dims, *experts) {
            Ok(p) => r is Ok && r->Ok_0@ == p,
            Err(f) => r is Err && r->Err_0@ == f,
        },
{
    let router: Vec<u32> = match read_router(files.norms_bytes, &files.weights, layer, dims) {
        Ok(w) => w,
        Err(e) => return Err(e),
    };
    let router_bias: Option<Vec<u32>> = aux_vector_opt(
        &files.aux,
        files.aux_bytes,
        layer,
        "exp_probs_b.bias",
        dims.num_experts,
    );
    let regions: (Vec<TensorRegion>, Vec<TensorRegion>) = match load_per_layer_moe(
        &experts.header,
        experts.path.as_str(),
        experts.format_text.as_str(),
        dims,
    ) {
        Ok(p) => p,
        Err(e) => return Err(e),
    };
    let ghost shared = shared_regions(files.interleaved@, layer);
    let shared_gate: TensorRegion = match manifest_quant(
        &files.interleaved,
        layer,
        "ffn_gate_shexp.weight",
    ) {
        Ok(t) => t,
        Err(e) => {
            proof {
                lemma_regions_fault(shared, 0);
            }
            return Err(e);
        },
    };
    let shared_up: TensorRegion = match manifest_quant(
        &files.interleaved,
        layer,
        "ffn_up_shexp.weight",
    ) {
        Ok(t) => t,
        Err(e) => {
            proof {
                lemma_regions_fault(shared, 1);
            }
            return Err(e);
        },
    };
    let shared_down: TensorRegion = match manifest_quant(
        &files.interleaved,
        layer,
        "ffn_down_shexp.weight",
    ) {
        Ok(t) => t,
        Err(e) => {
            proof {
                lemma_regions_fault(shared, 2);
            }
            return Err(e);
        },
    };
    proof {
        lemma_regions_fault(shared, 3);
    }
    let norm_key: String = layer_key(layer, "post_attention_layernorm.weight");
    let ffn_norm: Vec<u32> = match find_norm_vector(
        files.norms_bytes,
        &files.weights,
        &norm_key,
    ) {
        Ok(w) => w,
        Err(e) => return Err(e),
    };
    Ok(
        MoePlan {
            router,
            router_bias,
            expert_gate_ups: regions.0,
            expert_downs: regions.1,
            shared_gate,
            shared_up,
            shared_down,
            ffn_norm,
        },
    )
}

/// What a key of a layer reads: the word `layers`, the layer's number and the suffix,
/// with a dot between two of them.
pub proof fn law_keys_carry_the_layer(layer: usize, suffix: Seq<char>)
    ensures
        key_of(layer, suffix) == "layers."@ + decimal(layer as nat) + "."@ + suffix,
{
}

/// Which storage type a tag names: `Q4_K` type 12, `Q6_K` type 14, `Q8_0` type 8,
/// `F16` type 1 and `F32` type 0; any other tag names none.
pub proof fn law_tags_name_types(tag: Seq<char>)
    ensures
        tag_type(tag) == Some(12u32) <==> tag == "Q4_K"@,
        tag_type(tag) == Some(14u32) <==> tag == "Q6_K"@,
        tag_type(tag) == Some(8u32) <==> tag == "Q8_0"@,
        tag_type(tag) == Some(1u32) <==> tag == "F16"@,
        tag_type(tag) == Some(0u32) <==> tag == "F32"@,
        tag_type(tag) is None <==> tag != "Q4_K"@ && tag != "Q6_K"@ && tag != "Q8_0"@ && tag
            != "F16"@ && tag != "F32"@,
{
    reveal_strlit("Q4_K");
    reveal_strlit("Q6_K");
    reveal_strlit("Q8_0");
    reveal_strlit("F16");
    reveal_strlit("F32");
    assert("Q4_K"@[1] == '4' && "Q6_K"@[1] == '6' && "Q8_0"@[1] == '8');
    assert("F16"@[1] == '1' && "F32"@[1] == '3');
}

/// Which storage type a layer file's format is, by its number.
pub proof fn law_layer_formats(f: LayerWeightFormat)
    ensures
        format_type(f) == Some(12u32) <==> f is Q4K,
        format_type(f) == Some(14u32) <==> f is Q6K,
        format_type(f) == Some(8u32) <==> f is Q8_0,
        format_type(f) == Some(0u32) <==> f is F32,
        format_type(f) == Some(1u32) <==> f is F16,
        format_type(f) is None <==> f is Other,
{
}

/// Where a quantized tensor lies: where the first entry of its key says, in rows and
/// columns of the entry's first two axes, stored as its tag names. Without an entry
/// the key is missing; an unknown tag is not read.
pub proof fn law_quant_tensor_by_its_entry(entries: Seq<ManifestEntry>, key: Seq<char>, i: int)
    requires
        0 <= i < entries.len(),
        entries[i].key@ == key,
        forall|j: int| 0 <= j < i ==> (#[trigger] entries[j]).key@ != key,
    ensures
        quant_region(entries, key) is Ok <==> tag_type(entries[i].format@) is Some,
        quant_region(entries, key) matches Ok(t) ==> {
            &&& t.offset == entries[i].offset as usize
            &&& t.length == entries[i].length as usize
            &&& Some(t.dtype) == tag_type(entries[i].format@)
            &&& t.rows == entries[i].shape@[0] && t.cols == entries[i].shape@[1]
        },
{
    let keys = keys_of(entries);
    law_first_key(keys, key);
    assert(keys[i] == key);
    assert forall|j: int| 0 <= j < i implies #[trigger] keys[j] != key by {
        assert(keys[j] == entries[j].key@);
    }
}

/// A quantized tensor without an entry is reported as missing, by its key.
pub proof fn law_quant_tensor_without_an_entry(entries: Seq<ManifestEntry>, key: Seq<char>)
    requires
        forall|j: int| 0 <= j < entries.len() ==> (#[trigger] entries[j]).key@ != key,
    ensures
        quant_region(entries, key) == Err::<TensorRegion, LoadFault>(
            LoadFault::Missing(key, "mla/interleaved"@),
        ),
{
    let keys = keys_of(entries);
    law_first_key(keys, key);
    if first_key(keys, key) is Some {
        let i = first_key(keys, key)->Some_0;
        assert(keys[i] == entries[i].key@);
    }
}

/// What an auxiliary tensor reads: as many words as its shape or as was expected,
/// whichever is more, from where its entry says; only single precision is read, and
/// only where all of it lies in the file.
pub proof fn law_aux_words_by_their_entry(
    entries: Seq<AuxEntry>,
    bytes: Seq<u8>,
    key: Seq<char>,
    expected: nat,
    i: int,
)
    requires
        0 <= i < entries.len(),
        entries[i].key@ == key,
        forall|j: int| 0 <= j < i ==> (#[trigger] entries[j]).key@ != key,
    ensures
        ({
            let start = (entries[i].offset as usize) as int;
            let size = shape_size(entries[i].shape@);
            let n = if size > expected {
                size
            } else {
                expected
            };
            let w = aux_words(entries, bytes, key, expected);
            &&& w is Some <==> entries[i].dtype@ == "f32"@ && start + 4 * n <= bytes.len()
            &&& w matches Some(words) ==> words.len() == n && forall|j: int|
                0 <= j < n ==> (#[trigger] words[j]) == bytes[start + 4 * j] + 256 * bytes[start + 4
                    * j + 1] + 65536 * bytes[start + 4 * j + 2] + 16777216 * bytes[start + 4 * j + 3]
        }),
{
    let keys = keys_of(entries);
    law_first_key(keys, key);
    assert(keys[i] == key);
    assert forall|j: int| 0 <= j < i implies #[trigger] keys[j] != key by {
        assert(keys[j] == entries[j].key@);
    }
    let start = (entries[i].offset as usize) as int;
    let n = aux_len(entries[i], expected);
    if start + 4 * n <= bytes.len() {
        lemma_words_in_place(bytes, start, n);
    }
}

/// The words of a region of some bytes, one by one.
proof fn lemma_words_in_place(bytes: Seq<u8>, start: int, n: nat)
    requires
        0 <= start,
        start + 4 * n <= bytes.len(),
    ensures
        words_of(bytes.subrange(start, start + n * 4)).len() == n,
        forall|j: int|
            0 <= j < n ==> (#[trigger] words_of(bytes.subrange(start, start + n * 4))[j])
                == bytes[start + 4 * j] + 256 * bytes[start + 4 * j + 1] + 65536 * bytes[start + 4
                * j + 2] + 16777216 * bytes[start + 4 * j + 3],
{
    let part = bytes.subrange(start, start + n * 4);
    assert forall|j: int| 0 <= j < n implies (#[trigger] words_of(part)[j]) == bytes[start + 4 * j]
        + 256 * bytes[start + 4 * j + 1] + 65536 * bytes[start + 4 * j + 2] + 16777216
        * bytes[start + 4 * j + 3] by {
        law_word_of_bytes(part, j);
    }
}

/// An auxiliary tensor without an entry is not there; one that is required is then
/// reported as missing, by its key.
pub proof fn law_aux_tensor_without_an_entry(
    entries: Seq<AuxEntry>,
    bytes: Seq<u8>,
    key: Seq<char>,
    expected: nat,
)
    ensures
        (forall|j: int| 0 <= j < entries.len() ==> (#[trigger] entries[j]).key@ != key)
            ==> aux_words(entries, bytes, key, expected) is None,
        match aux_words(entries, bytes, key, expected) {
            Some(w) => aux_required(entries, bytes, key, expected) == Ok::<Seq<u32>, LoadFault>(w),
            None => aux_required(entries, bytes, key, expected) == Err::<Seq<u32>, LoadFault>(
                LoadFault::Missing(key, "aux"@),
            ),
        },
{
    let keys = keys_of(entries);
    law_first_key(keys, key);
    if first_key(keys, key) is Some {
        let i = first_key(keys, key)->Some_0;
        assert(keys[i] == entries[i].key@);
    }
}

/// What a norm reads: the bytes that its entry names, where they lie in the file.
pub proof fn law_norm_by_its_entry(
    bytes: Seq<u8>,
    entries: Seq<WeightEntry>,
    key: Seq<char>,
    i: int,
)
    requires
        0 <= i < entries.len(),
        entries[i].key@ == key,
        forall|j: int| 0 <= j < i ==> (#[trigger] entries[j]).key@ != key,
    ensures
        ({
            let start = (entries[i].offset as usize) as int;
            let size = (entries[i].length as usize) as int;
            let r = norm_words(bytes, entries, key);
            &&& r is Ok <==> start + size <= bytes.len()
            &&& r matches Ok(w) ==> w.len() == size / 4 && forall|j: int|
                0 <= j < size / 4 ==> (#[trigger] w[j]) == bytes[start + 4 * j] + 256 * bytes[start
                    + 4 * j + 1] + 65536 * bytes[start + 4 * j + 2] + 16777216 * bytes[start + 4 * j
                    + 3]
            &&& r matches Err(f) ==> f is Parse
        }),
{
    let keys = keys_of(entries);
    law_first_key(keys, key);
    assert(keys[i] == key);
    assert forall|j: int| 0 <= j < i implies #[trigger] keys[j] != key by {
        assert(keys[j] == entries[j].key@);
    }
    let start = (entries[i].offset as usize) as int;
    let size = (entries[i].length as usize) as int;
    if start + size <= bytes.len() {
        let part = bytes.subrange(start, start + size);
        assert forall|j: int| 0 <= j < size / 4 implies (#[trigger] words_of(part)[j])
            == bytes[start + 4 * j] + 256 * bytes[start + 4 * j + 1] + 65536 * bytes[start + 4 * j
            + 2] + 16777216 * bytes[start + 4 * j + 3] by {
            law_word_of_bytes(part, j);
        }
    }
}

/// Where a plain tensor lies: where the first entry of its key says; a single axis is
/// one row; without a tag it is single precision. Without an entry the key is missing,
/// and an unknown tag or any other number of axes is not read.
pub proof fn law_weight_by_its_entry(entries: Seq<WeightEntry>, key: Seq<char>, i: int)
    requires
        0 <= i < entries.len(),
        entries[i].key@ == key,
        forall|j: int| 0 <= j < i ==> (#[trigger] entries[j]).key@ != key,
    ensures
        ({
            let e = entries[i];
            let n = e.shape@.len();
            let known = e.format is None || tag_type(e.format->Some_0@) is Some;
            let r = weight_region(entries, key);
            &&& r is Ok <==> known && (n == 1 || n == 2)
            &&& r matches Ok(t) ==> {
                &&& t.offset == e.offset as usize && t.length == e.length as usize
                &&& e.format is None ==> t.dtype == 0
                &&& e.format matches Some(tag) ==> Some(t.dtype) == tag_type(tag@)
                &&& n == 2 ==> t.rows == e.shape@[0] && t.cols == e.shape@[1]
                &&& n == 1 ==> t.rows == 1 && t.cols == e.shape@[0]
            }
            &&& r matches Err(f) ==> f is Parse
        }),
{
    let keys = keys_of(entries);
    law_first_key(keys, key);
    assert(keys[i] == key);
    assert forall|j: int| 0 <= j < i implies #[trigger] keys[j] != key by {
        assert(keys[j] == entries[j].key@);
    }
}

/// A norm or a plain tensor without an entry is reported as missing, by its key.
pub proof fn law_weight_without_an_entry(
    bytes: Seq<u8>,
    entries: Seq<WeightEntry>,
    key: Seq<char>,
)
    requires
        forall|j: int| 0 <= j < entries.len() ==> (#[trigger] entries[j]).key@ != key,
    ensures
        norm_words(bytes, entries, key) == Err::<Seq<u32>, LoadFault>(
            LoadFault::Missing(key, "weight_manifest"@),
        ),
        weight_region(entries, key) == Err::<TensorRegion, LoadFault>(
            LoadFault::Missing(key, "weight_manifest"@),
        ),
{
    let keys = keys_of(entries);
    law_first_key(keys, key);
    if first_key(keys, key) is Some {
        let i = first_key(keys, key)->Some_0;
        assert(keys[i] == entries[i].key@);
    }
}

/// Which entry is the output matrix: the first under either of its two names; none
/// where no entry has one.
pub proof fn law_first_output_matrix(entries: Seq<WeightEntry>)
    ensures
        match first_lm_head(entries) {
            Some(e) => exists|i: int|
                {
                    &&& 0 <= i < entries.len()
                    &&& #[trigger] entries[i] == e
                    &&& e.key@ == "lm_head.weight"@ || e.key@ == "output.weight"@
                    &&& forall|j: int|
                        0 <= j < i ==> (#[trigger] entries[j]).key@ != "lm_head.weight"@
                            && entries[j].key@ != "output.weight"@
                },
            None => forall|j: int|
                0 <= j < entries.len() ==> (#[trigger] entries[j]).key@ != "lm_head.weight"@
                    && entries[j].key@ != "output.weight"@,
        },
    decreases entries.len(),
{
    if entries.len() > 0 {
        if is_lm_head(entries[0]) {
            assert(entries[0] == first_lm_head(entries)->Some_0);
        } else {
            let rest = entries.skip(1);
            law_first_output_matrix(rest);
            match first_lm_head(rest) {
                Some(e) => {
                    let i = choose|i: int|
                        {
                            &&& 0 <= i < rest.len()
                            &&& #[trigger] rest[i] == e
                            &&& e.key@ == "lm_head.weight"@ || e.key@ == "output.weight"@
                            &&& forall|j: int|
                                0 <= j < i ==> (#[trigger] rest[j]).key@ != "lm_head.weight"@
                                    && rest[j].key@ != "output.weight"@
                        };
                    assert(entries[i + 1] == e);
                    assert forall|j: int| 0 <= j < i + 1 implies (#[trigger] entries[j]).key@
                        != "lm_head.weight"@ && entries[j].key@ != "output.weight"@ by {
                        if j > 0 {
                            assert(rest[j - 1] == entries[j]);
                        }
                    }
                },
                None => {
                    assert forall|j: int| 0 <= j < entries.len() implies (
                    #[trigger] entries[j]).key@ != "lm_head.weight"@ && entries[j].key@
                        != "output.weight"@ by {
                        if j > 0 {
                            assert(rest[j - 1] == entries[j]);
                        }
                    }
                },
            }
        }
    }
}

/// Where the output matrix lies: where its entry says, with the vocabulary and hidden
/// size for a shape that has not two axes; its own file holds four-bit words; a tag
/// counts where it is four-bit, eight-bit or half precision, and else it is single
/// precision. Without an entry it is the whole of a four-bit file, 144 bytes for every
/// 256 values.
pub proof fn law_output_matrix_region(entries: Seq<WeightEntry>, vocab: usize, hidden: usize)
    requires
        vocab * hidden <= usize::MAX,
    ensures
        ({
            let r = lm_head_region(entries, vocab, hidden);
            match first_lm_head(entries) {
                Some(e) => {
                    let own_file = e.file is Some && e.file->Some_0@ == "lm_head_q4.bin"@;
                    let tag = e.format->Some_0@;
                    &&& r.offset == e.offset as usize && r.length == e.length as usize
                    &&& e.shape@.len() == 2 ==> r.rows == e.shape@[0] && r.cols == e.shape@[1]
                    &&& e.shape@.len() != 2 ==> r.rows == vocab && r.cols == hidden
                    &&& own_file ==> r.dtype == 12
                    &&& !own_file && e.format is None ==> r.dtype == 0
                    &&& !own_file && e.format is Some && tag == "Q4_K"@ ==> r.dtype == 12
                    &&& !own_file && e.format is Some && tag == "Q8_0"@ ==> r.dtype == 8
                    &&& !own_file && e.format is Some && tag == "F16"@ ==> r.dtype == 1
                    &&& !own_file && e.format is Some && tag != "Q4_K"@ && tag != "Q8_0"@ && tag
                        != "F16"@ ==> r.dtype == 0
                },
                None => {
                    &&& r.offset == 0 && r.dtype == 12 && r.rows == vocab && r.cols == hidden
                    &&& r.length == ((vocab * hidden / 256) * 144) as usize
                },
            }
        }),
{
    reveal_strlit("Q4_K");
    reveal_strlit("Q8_0");
    reveal_strlit("F16");
    assert("Q4_K"@[1] == '4' && "Q8_0"@[1] == '8' && "F16"@[1] == '1');
    let (v, h) = (vocab as nat, hidden as nat);
    assert(v * h == vocab * hidden);
}

/// The fault of some regions is that of the first one that was not found.
pub proof fn law_first_missing_region(found: Seq<Result<TensorRegion, LoadFault>>)
    ensures
        match regions_fault(found) {
            None => forall|i: int| 0 <= i < found.len() ==> (#[trigger] found[i]) is Ok,
            Some(f) => exists|k: int|
                {
                    &&& 0 <= k < found.len()
                    &&& #[trigger] found[k] == Err::<TensorRegion, LoadFault>(f)
                    &&& forall|i: int| 0 <= i < k ==> (#[trigger] found[i]) is Ok
                },
        },
    decreases found.len(),
{
    if found.len() > 0 && found[0] is Ok {
        let rest = found.skip(1);
        law_first_missing_region(rest);
        match regions_fault(rest) {
            None => {
                assert forall|i: int| 0 <= i < found.len() implies (#[trigger] found[i]) is Ok by {
                    if i > 0 {
                        assert(rest[i - 1] == found[i]);
                    }
                }
            },
            Some(f) => {
                let k = choose|k: int|
                    {
                        &&& 0 <= k < rest.len()
                        &&& #[trigger] rest[k] == Err::<TensorRegion, LoadFault>(f)
                        &&& forall|i: int| 0 <= i < k ==> (#[trigger] rest[i]) is Ok
                    };
                assert(found[k + 1] == rest[k]);
                assert forall|i: int| 0 <= i < k + 1 implies (#[trigger] found[i]) is Ok by {
                    if i > 0 {
                        assert(rest[i - 1] == found[i]);
                    }
                }
            },
        }
    }
}

/// A layer's attention weights are each read under its own key: the five matrices from
/// the attention manifest, the input norm from the weights, the two latent norms and
/// the sinks from the auxiliary tensors, with as many words as ranks and heads. It is
/// read where all of them are there, and nowhere else.
pub proof fn law_attention_is_read_by_key(files: VindexFiles, layer: usize, dims: Dsv4Dims)
    ensures
        ({
            let q_a = quant_region(files.mla@, key_of(layer, "attn_q_a.weight"@));
            let q_b = quant_region(files.mla@, key_of(layer, "attn_q_b.weight"@));
            let kv = quant_region(files.mla@, key_of(layer, "attn_kv.weight"@));
            let out_a = quant_region(files.mla@, key_of(layer, "attn_output_a.weight"@));
            let out_b = quant_region(files.mla@, key_of(layer, "attn_output_b.weight"@));
            let norm = norm_words(
                files.norms_bytes@,
                files.weights@,
                key_of(layer, "input_layernorm.weight"@),
            );
            let q_norm = aux_words(
                files.aux@,
                files.aux_bytes@,
                key_of(layer, "attn_q_a_norm.weight"@),
                dims.q_lora_rank as nat,
            );
            let kv_norm = aux_words(
                files.aux@,
                files.aux_bytes@,
                key_of(layer, "attn_kv_a_norm.weight"@),
                dims.kv_lora_rank as nat,
            );
            let sinks = aux_words(
                files.aux@,
                files.aux_bytes@,
                key_of(layer, "attn_sinks.weight"@),
                dims.n_heads as nat,
            );
            let plan = attn_plan(files, layer, dims);
            &&& plan is Ok <==> q_a is Ok && q_b is Ok && kv is Ok && out_a is Ok && out_b is Ok
                && norm is Ok && q_norm is Some && kv_norm is Some && sinks is Some
            &&& plan matches Ok(p) ==> {
                &&& p.q_a == q_a->Ok_0 && p.q_b == q_b->Ok_0 && p.kv == kv->Ok_0
                &&& p.output_a == out_a->Ok_0 && p.output_b == out_b->Ok_0
                &&& p.attn_norm == norm->Ok_0
                &&& p.q_a_norm == q_norm->Some_0 && p.kv_a_norm == kv_norm->Some_0
                &&& p.sinks == sinks->Some_0
            }
        }),
{
    let found = attn_regions(files.mla@, layer);
    law_first_missing_region(found);
    if regions_fault(found) is None {
        assert(found[0] is Ok && found[1] is Ok && found[2] is Ok && found[3] is Ok
            && found[4] is Ok);
    }
}

/// The two regions of an expert: its fused gate and up projection has twice the inner
/// width of rows, its down projection the hidden size.
pub proof fn law_expert_regions(b: ExpertBlocks, dtype: u32, dims: Dsv4Dims)
    requires
        2 * dims.ffn_dim <= usize::MAX,
    ensures
        ({
            let g = gate_up_region(b, dtype, dims);
            let d = down_region(b, dtype, dims);
            &&& g.offset == b.gate_up_offset && g.length == b.gate_up_bytes && g.dtype == dtype
            &&& g.rows == 2 * dims.ffn_dim && g.cols == dims.hidden
            &&& d.offset == b.down_offset && d.length == b.down_bytes && d.dtype == dtype
            &&& d.rows == dims.hidden && d.cols == dims.ffn_dim
        }),
{
}

/// A layer's expert file is taken where its header was read, its format is known and
/// it holds as many experts as the model has, and nowhere else.
pub proof fn law_expert_file_is_taken(
    header: Option<LayerHeader>,
    path: Seq<char>,
    format_text: Seq<char>,
    dims: Dsv4Dims,
)
    ensures
        experts_fault(header, path, format_text, dims) is None <==> header is Some
            && !(header->Some_0.format is Other) && header->Some_0.num_entries == dims.num_experts,
        experts_fault(header, path, format_text, dims) matches Some(f) ==> f is Parse,
{
}

/// What a router reads: the words that its entry names, which must be as many as there
/// are experts times the hidden size.
pub proof fn law_router_words(
    norms_bytes: Seq<u8>,
    weights: Seq<WeightEntry>,
    layer: usize,
    dims: Dsv4Dims,
)
    ensures
        ({
            let region = weight_region(weights, key_of(layer, "ffn_gate_inp.weight"@));
            let r = router_words(norms_bytes, weights, layer, dims);
            &&& r is Ok <==> region is Ok && region->Ok_0.length == dims.num_experts * dims.hidden
                * 4
            &&& region matches Err(f) ==> r == Err::<Seq<u32>, LoadFault>(f)
            &&& r matches Ok(w) ==> w == words_of(
                norms_bytes.subrange(
                    region->Ok_0.offset as int,
                    region->Ok_0.offset + region->Ok_0.length,
                ),
            )
        }),
{
}

/// A layer's experts are each read under its own key: the router and the norm behind
/// attention from the weights, the routed experts block by block from the layer's
/// file, the shared expert's three matrices from the interleaved manifest, and the
/// router's bias where the auxiliary tensors have one.
pub proof fn law_experts_are_read_by_key(
    files: VindexFiles,
    layer: usize,
    dims: Dsv4Dims,
    experts: ExpertFile,
)
    ensures
        ({
            let router = router_words(files.norms_bytes@, files.weights@, layer, dims);
            let fault = experts_fault(experts.header, experts.path@, experts.format_text@, dims);
            let gate = quant_region(files.interleaved@, key_of(layer, "ffn_gate_shexp.weight"@));
            let up = quant_region(files.interleaved@, key_of(layer, "ffn_up_shexp.weight"@));
            let down = quant_region(files.interleaved@, key_of(layer, "ffn_down_shexp.weight"@));
            let norm = norm_words(
                files.norms_bytes@,
                files.weights@,
                key_of(layer, "post_attention_layernorm.weight"@),
            );
            let plan = moe_plan(files, layer, dims, experts);
            &&& plan is Ok <==> router is Ok && fault is None && gate is Ok && up is Ok && down is Ok
                && norm is Ok
            &&& plan matches Ok(p) ==> {
                let blocks = experts.header->Some_0.blocks@;
                let dtype = format_type(experts.header->Some_0.format)->Some_0;
                &&& p.router == router->Ok_0 && p.ffn_norm == norm->Ok_0
                &&& p.shared_gate == gate->Ok_0 && p.shared_up == up->Ok_0
                &&& p.shared_down == down->Ok_0
                &&& p.router_bias == aux_words(
                    files.aux@,
                    files.aux_bytes@,
                    key_of(layer, "exp_probs_b.bias"@),
                    dims.num_experts as nat,
                )
                &&& p.expert_gate_ups.len() == blocks.len() && p.expert_downs.len() == blocks.len()
                &&& forall|e: int|
                    0 <= e < blocks.len() ==> #[trigger] p.expert_gate_ups[e] == gate_up_region(
                        blocks[e],
                        dtype,
                        dims,
                    )
                &&& forall|e: int|
                    0 <= e < blocks.len() ==> #[trigger] p.expert_downs[e] == down_region(
                        blocks[e],
                        dtype,
                        dims,
                    )
            }
        }),
{
    let shared = shared_regions(files.interleaved@, layer);
    law_first_missing_region(shared);
    if regions_fault(shared) is None {
        assert(shared[0] is Ok && shared[1] is Ok && shared[2] is Ok);
    }
}

/// What the faults of loading say.
pub proof fn law_load_fault_texts(t: Seq<char>, m: Seq<char>, start: nat, length: nat, size: nat)
    ensures
        LoadFault::Vindex(t).text() == "vindex error: "@ + t,
        LoadFault::Model(t).text() == "model error: "@ + t,
        LoadFault::Io(t).text() == "io: "@ + t,
        LoadFault::Parse(t).text() == "parse: "@ + t,
        LoadFault::Missing(t, m).text() == "missing manifest entry: "@ + t + " (in "@ + m + ")"@,
        norm_range_text(t, start, length, size) == "norm "@ + t + ": range "@ + decimal(start)
            + "+"@ + decimal(length) + " out of bounds (mmap "@ + decimal(size) + ")"@,
{
}

/// A layer's matrices can be read where every entry of the manifest has at least two
/// axes.
pub proof fn law_entries_with_two_axes_are_readable(mla: Seq<ManifestEntry>, key: Seq<char>, layer: usize)
    requires
        forall|i: int| 0 <= i < mla.len() ==> (#[trigger] mla[i]).shape@.len() >= 2,
    ensures
        quant_entry_allowed(mla, key),
        attn_entries_allowed(mla, layer),
{
    assert forall|k: Seq<char>| #[trigger] quant_entry_allowed(mla, k) by {
        law_first_key(keys_of(mla), k);
    }
}

} // verus!
