//! Per-layer tensors as they come out of a model file: which of them belong to
//! a layer, where their bytes lie, and the table that holds them.
use vstd::prelude::*;
use vstd::string::*;
use crate::text::{decimal, decimal_text};

verus! {

/// A tensor in its quantized form: the stored bytes, the storage type's id and
/// the logical shape.
#[derive(Clone, Debug)]
pub struct RawExpertTensor {
    pub bytes: Vec<u8>,
    pub tensor_type: u32,
    pub rows: usize,
    pub cols: usize,
}

/// What a [`RawExpertTensor`] stands for.
pub struct RawTensorModel {
    pub bytes: Seq<u8>,
    pub tensor_type: u32,
    pub rows: usize,
    pub cols: usize,
}

impl View for RawExpertTensor {
    type V = RawTensorModel;

    open spec fn view(&self) -> RawTensorModel {
        RawTensorModel {
            bytes: self.bytes@,
            tensor_type: self.tensor_type,
            rows: self.rows,
            cols: self.cols,
        }
    }
}

/// What a tensor is for.
#[derive(Clone, Copy, Debug, PartialEq, Eq, Structural)]
pub enum DsV4TensorKind {
    TokenEmbd,
    AttnNorm,
    AttnQA,
    AttnQANorm,
    AttnQB,
    AttnKv,
    AttnKvANorm,
    AttnSinks,
    AttnOutA,
    AttnOutB,
    AttnCompressorKv,
    AttnCompressorGate,
    AttnCompressorApe,
    AttnCompressorNorm,
    IndexerCompressorKv,
    IndexerCompressorGate,
    IndexerCompressorApe,
    IndexerCompressorNorm,
    IndexerAttnQB,
    IndexerProj,
    FfnExpProbsB,
}

/// What a tensor's name says: the kind, whether that kind comes once per layer,
/// and the layer where the name gives one.
#[derive(Clone, Copy, Debug, PartialEq, Eq, Structural)]
pub struct ParsedName {
    pub kind: DsV4TensorKind,
    pub per_layer: bool,
    pub layer: Option<usize>,
}

impl ParsedName {
    /// The name is that of a per-layer tensor of the layer.
    pub open spec fn names_layer(self, layer_index: usize) -> bool {
        self.per_layer && self.layer == Some(layer_index)
    }
}

/// A named tensor before it is sorted into a layer. `name` is `None` where the
/// name follows no scheme that is known.
#[derive(Clone, Debug)]
pub struct NamedTensor {
    pub name: Option<ParsedName>,
    pub words: Vec<u32>,
}

/// One layer's tensors by kind, each kind at most once.
pub struct LayerTensors {
    entries: Vec<(DsV4TensorKind, Vec<u32>)>,
}

/// Some entry has the kind.
spec fn has_kind(s: Seq<(DsV4TensorKind, Vec<u32>)>, kind: DsV4TensorKind) -> bool {
    exists|i: int| 0 <= i < s.len() && (#[trigger] s[i]).0 == kind
}

/// An entry that has the kind.
spec fn slot_of(s: Seq<(DsV4TensorKind, Vec<u32>)>, kind: DsV4TensorKind) -> int {
    choose|i: int| 0 <= i < s.len() && (#[trigger] s[i]).0 == kind
}

/// No kind occurs twice.
spec fn kinds_differ(s: Seq<(DsV4TensorKind, Vec<u32>)>) -> bool {
    forall|i: int, j: int|
        0 <= i < j < s.len() ==> (#[trigger] s[i]).0 != (#[trigger] s[j]).0
}

impl View for LayerTensors {
    type V = Map<DsV4TensorKind, Seq<u32>>;

    closed spec fn view(&self) -> Map<DsV4TensorKind, Seq<u32>> {
        Map::new(
            |k: DsV4TensorKind| has_kind(self.entries@, k),
            |k: DsV4TensorKind| self.entries@[slot_of(self.entries@, k)].1@,
        )
    }
}

impl LayerTensors {
    /// No kind occurs twice.
    pub closed spec fn wf(&self) -> bool {
        kinds_differ(self.entries@)
    }

    /// An empty table.
    pub fn new() -> (t: Self)
        ensures
            t.wf(),
            t@ == Map::<DsV4TensorKind, Seq<u32>>::empty(),
    {
        let t = LayerTensors { entries: Vec::new() };
        assert(t@ =~= Map::<DsV4TensorKind, Seq<u32>>::empty());
        t
    }

    /// Where the kind stands, if it does.
    fn position(&self, kind: DsV4TensorKind) -> (r: Option<usize>)
        ensures
            match r {
                Some(i) => i < self.entries@.len() && self.entries@[i as int].0 == kind,
                None => !has_kind(self.entries@, kind),
            },
    {
        let mut i: usize = 0;
        while i < self.entries.len()
            invariant
                i <= self.entries@.len(),
                forall|j: int| 0 <= j < i ==> (#[trigger] self.entries@[j]).0 != kind,
            decreases self.entries@.len() - i,
        {
            if self.entries[i].0 == kind {
                return Some(i);
            }
            i += 1;
        }
        None
    }

    proof fn lemma_at(&self, i: int)
        requires
            self.wf(),
            0 <= i < self.entries@.len(),
        ensures
            self@.contains_key(self.entries@[i].0),
            self@[self.entries@[i].0] == self.entries@[i].1@,
    {
        let k = self.entries@[i].0;
        assert(has_kind(self.entries@, k));
        let j = slot_of(self.entries@, k);
        assert(0 <= j < self.entries@.len() && self.entries@[j].0 == k);
        assert(i == j);
    }

    /// Puts the words under the kind, in place of what stood there.
    pub fn insert(&mut self, kind: DsV4TensorKind, words: Vec<u32>)
        requires
            old(self).wf(),
        ensures
            final(self).wf(),
            final(self)@ == old(self)@.insert(kind, words@),
    {
        let ghost before = *self;
        let ghost w = words@;
        match self.position(kind) {
            Some(i) => {
                self.entries.set(i, (kind, words));
            },
            None => {
                self.entries.push((kind, words));
            },
        }
        proof {
            let s = self.entries@;
            let o = before.entries@;
            assert(kinds_differ(s)) by {
                assert forall|a: int, b: int| 0 <= a < b < s.len() implies (#[trigger] s[a]).0 != (
                #[trigger] s[b]).0 by {
                    assert(a < o.len() ==> s[a].0 == o[a].0);
                    assert(b < o.len() ==> s[b].0 == o[b].0);
                }
            }
            assert forall|k: DsV4TensorKind| #[trigger]
                self@.contains_key(k) == before@.insert(kind, w).contains_key(k) by {
                if has_kind(s, k) {
                    let a = slot_of(s, k);
                    assert(0 <= a < s.len() && s[a].0 == k);
                    if k != kind {
                        assert(o[a] == s[a]);
                    }
                }
                if has_kind(o, k) {
                    let a = slot_of(o, k);
                    assert(0 <= a < o.len() && o[a].0 == k);
                    assert(s[a].0 == k);
                }
                if k == kind {
                    if has_kind(o, k) {
                    } else {
                        assert(s[s.len() - 1].0 == kind);
                    }
                }
            }
            assert forall|k: DsV4TensorKind| #[trigger]
                self@.contains_key(k) implies self@[k] == before@.insert(kind, w)[k] by {
                let a = slot_of(s, k);
                assert(0 <= a < s.len() && s[a].0 == k);
                self.lemma_at(a);
                if k != kind {
                    assert(o[a] == s[a]);
                    before.lemma_at(a);
                }
            }
            assert(self@ =~= before@.insert(kind, w));
        }
    }

    /// The words under the kind.
    pub fn get(&self, kind: DsV4TensorKind) -> (r: Option<&Vec<u32>>)
        requires
            self.wf(),
        ensures
            match r {
                Some(v) => self@.contains_key(kind) && v@ == self@[kind],
                None => !self@.contains_key(kind),
            },
    {
        match self.position(kind) {
            Some(i) => {
                proof {
                    self.lemma_at(i as int);
                }
                Some(&self.entries[i].1)
            },
            None => None,
        }
    }

    /// Takes the kind out of the table, if it is there.
    pub fn remove(&mut self, kind: DsV4TensorKind)
        requires
            old(self).wf(),
        ensures
            final(self).wf(),
            final(self)@ == old(self)@.remove(kind),
    {
        let ghost before = *self;
        match self.position(kind) {
            Some(i) => {
                self.entries.remove(i);
                proof {
                    let s = self.entries@;
                    let o = before.entries@;
                    assert(s =~= o.remove(i as int));
                    assert(kinds_differ(s)) by {
                        assert forall|a: int, b: int| 0 <= a < b < s.len() implies (#[trigger] s[a]).0
                            != (#[trigger] s[b]).0 by {
                            assert(s[a] == o[if a < i { a } else { a + 1 }]);
                            assert(s[b] == o[if b < i { b } else { b + 1 }]);
                        }
                    }
                    assert forall|k: DsV4TensorKind| #[trigger]
                        self@.contains_key(k) == before@.remove(kind).contains_key(k) by {
                        if has_kind(s, k) {
                            let a = slot_of(s, k);
                            assert(0 <= a < s.len() && s[a].0 == k);
                            assert(s[a] == o[if a < i { a } else { a + 1 }]);
                        }
                        if has_kind(o, k) && k != kind {
                            let a = slot_of(o, k);
                            assert(0 <= a < o.len() && o[a].0 == k);
                            assert(o[a] == s[if a < i { a } else { a - 1 }]);
                        }
                    }
                    assert forall|k: DsV4TensorKind| #[trigger]
                        self@.contains_key(k) implies self@[k] == before@.remove(kind)[k] by {
                        let a = slot_of(s, k);
                        assert(0 <= a < s.len() && s[a].0 == k);
                        self.lemma_at(a);
                        let b = if a < i { a } else { a + 1 };
                        assert(s[a] == o[b]);
                        before.lemma_at(b);
                    }
                    assert(self@ =~= before@.remove(kind));
                }
            },
            None => {
                assert(self@ =~= before@.remove(kind));
            },
        }
    }

    /// How many kinds the table holds.
    pub fn len(&self) -> (n: usize)
        requires
            self.wf(),
        ensures
            n == self@.dom().len(),
            self@.dom().finite(),
    {
        proof {
            let keys = self.entries@.map_values(|e: (DsV4TensorKind, Vec<u32>)| e.0);
            assert(keys.no_duplicates()) by {
                assert forall|i: int, j: int|
                    0 <= i < keys.len() && 0 <= j < keys.len() && i != j implies keys[i]
                    != keys[j] by {
                    let s = self.entries@;
                    assert(keys[i] == s[i].0 && keys[j] == s[j].0);
                }
            }
            keys.unique_seq_to_set();
            assert(keys.to_set() =~= self@.dom()) by {
                assert forall|k: DsV4TensorKind| #[trigger] self@.dom().contains(k) implies keys.to_set().contains(
                k) by {
                    let a = slot_of(self.entries@, k);
                    assert(self.entries@[a].0 == k);
                    assert(keys[a] == k);
                }
                assert forall|k: DsV4TensorKind| #[trigger] keys.to_set().contains(k) implies self@.dom().contains(
                k) by {
                    let a = choose|a: int| 0 <= a < keys.len() && keys[a] == k;
                    assert(self.entries@[a].0 == k);
                }
            }
        }
        self.entries.len()
    }
}

/// The tensors of one layer: for every kind the words of the last entry that
/// names it for the layer. Names that follow no scheme, other layers' tensors
/// and tensors that the whole model shares leave no trace.
pub open spec fn layer_tensors(raw: Seq<NamedTensor>, layer_index: usize) -> Map<
    DsV4TensorKind,
    Seq<u32>,
>
    decreases raw.len(),
{
    if raw.len() == 0 {
        Map::empty()
    } else {
        let rest = layer_tensors(raw.drop_last(), layer_index);
        match raw.last().name {
            Some(n) => if n.names_layer(layer_index) {
                rest.insert(n.kind, raw.last().words@)
            } else {
                rest
            },
            None => rest,
        }
    }
}

/// Sorts named tensors by kind, keeping those of one layer.
pub fn rekey_dsv4_layer_tensors(raw: Vec<NamedTensor>, layer_index: usize) -> (t: LayerTensors)
    ensures
        t.wf(),
        t@ == layer_tensors(raw@, layer_index),
{
    let mut t = LayerTensors::new();
    let mut i: usize = 0;
    assert(raw@.take(0) =~= Seq::<NamedTensor>::empty());
    while i < raw.len()
        invariant
            i <= raw@.len(),
            t.wf(),
            t@ == layer_tensors(raw@.take(i as int), layer_index),
        decreases raw@.len() - i,
    {
        assert(raw@.take(i + 1).drop_last() =~= raw@.take(i as int));
        if let Some(n) = raw[i].name {
            if n.per_layer && n.layer.is_some() && n.layer.unwrap() == layer_index {
                let words: Vec<u32> = vstd::slice::slice_to_vec(raw[i].words.as_slice());
                assert(words@ =~= raw@[i as int].words@);
                t.insert(n.kind, words);
            }
        }
        i += 1;
    }
    assert(raw@.take(i as int) =~= raw@);
    t
}

/// Where a tensor's bytes start in its file: behind the file's header, at the
/// tensor's own offset. `None` where the sum is no 64-bit number.
pub fn absolute_offset(data_offset: u64, tensor_offset: u64) -> (r: Option<u64>)
    ensures
        match r {
            Some(at) => at == data_offset + tensor_offset,
            None => data_offset + tensor_offset > u64::MAX,
        },
{
    data_offset.checked_add(tensor_offset)
}

/// The product of the dimensions.
pub open spec fn elements(dims: Seq<u64>) -> nat
    decreases dims.len(),
{
    if dims.len() == 0 {
        1
    } else {
        elements(dims.drop_last()) * dims.last() as nat
    }
}

/// How many elements a tensor has.
pub fn element_count(dims: &[u64]) -> (n: u64)
    requires
        dims_fit(dims@),
    ensures
        n as nat == elements(dims@),
{
    let mut n: u64 = 1;
    let mut i: usize = 0;
    assert(dims@.take(0) =~= Seq::<u64>::empty());
    while i < dims.len()
        invariant
            i <= dims@.len(),
            n as nat == elements(dims@.take(i as int)),
            dims_fit(dims@),
        decreases dims@.len() - i,
    {
        assert(dims@.take(i + 1).drop_last() =~= dims@.take(i as int));
        assert(elements(dims@.take(i + 1)) <= u64::MAX);
        n = n * dims[i];
        i += 1;
    }
    assert(dims@.take(i as int) =~= dims@);
    n
}

/// A tensor as the model file's header lists it.
#[derive(Clone, Debug)]
pub struct TensorInfo {
    pub name: String,
    /// Where the data of the tensor's file starts.
    pub data_offset: u64,
    /// Where the tensor starts in that data.
    pub offset: u64,
    pub dims: Vec<u64>,
}

/// A tensor name that a layer wants, and the kind that it stands for.
#[derive(Clone, Debug)]
pub struct WantedTensor {
    pub name: String,
    pub kind: DsV4TensorKind,
}

/// A read to be made: the kind, the place in the file and the element count.
#[derive(Clone, Copy, Debug, PartialEq, Eq, Structural)]
pub struct TensorRead {
    pub kind: DsV4TensorKind,
    pub at: u64,
    pub elements: u64,
}

/// The kind of the last wanted tensor of that name.
pub open spec fn wanted_kind(want: Seq<WantedTensor>, name: Seq<char>) -> Option<DsV4TensorKind>
    decreases want.len(),
{
    if want.len() == 0 {
        None
    } else if want.last().name@ == name {
        Some(want.last().kind)
    } else {
        wanted_kind(want.drop_last(), name)
    }
}

/// Every partial product of the dimensions is a 64-bit number.
pub open spec fn dims_fit(dims: Seq<u64>) -> bool {
    forall|k: int| 0 <= k <= dims.len() ==> elements(#[trigger] dims.take(k)) <= u64::MAX
}

/// The message for an offset that is no 64-bit number.
pub open spec fn offset_overflow_text(layer_index: usize, name: Seq<char>) -> Seq<char> {
    "DSv4 layer "@ + decimal(layer_index as nat) + ": "@ + name + " offset overflow"@
}

fn find_wanted(want: &Vec<WantedTensor>, name: &String) -> (r: Option<DsV4TensorKind>)
    ensures
        r == wanted_kind(want@, name@),
{
    let mut i: usize = want.len();
    assert(want@.take(i as int) =~= want@);
    while i > 0
        invariant
            i <= want@.len(),
            wanted_kind(want@, name@) == wanted_kind(want@.take(i as int), name@),
        decreases i,
    {
        assert(want@.take(i as int).drop_last() =~= want@.take(i - 1));
        i -= 1;
        if want[i].name == *name {
            return Some(want[i].kind);
        }
    }
    None
}

/// The read that a listed tensor calls for: none where the layer does not want
/// its name, and a message where its place in the file is no 64-bit number.
pub fn plan_tensor_read(info: &TensorInfo, want: &Vec<WantedTensor>, layer_index: usize) -> (r:
    Result<Option<TensorRead>, String>)
    requires
        wanted_kind(want@, info.name@) is Some && info.data_offset + info.offset <= u64::MAX
            ==> dims_fit(info.dims@),
    ensures
        match wanted_kind(want@, info.name@) {
            None => r == Ok::<Option<TensorRead>, String>(None),
            Some(kind) => if info.data_offset + info.offset > u64::MAX {
                r is Err && r->Err_0@ == offset_overflow_text(layer_index, info.name@)
            } else {
                r == Ok::<Option<TensorRead>, String>(
                    Some(
                        TensorRead {
                            kind,
                            at: (info.data_offset + info.offset) as u64,
                            elements: elements(info.dims@) as u64,
                        },
                    ),
                )
            },
        },
{
    match find_wanted(want, &info.name) {
        None => Ok(None),
        Some(kind) => match absolute_offset(info.data_offset, info.offset) {
            None => {
                let mut t: String = String::from_str("DSv4 layer ");
                let number: String = decimal_text(layer_index as u64);
                t.append(number.as_str());
                t.append(": ");
                t.append(info.name.as_str());
                t.append(" offset overflow");
                Err(t)
            },
            Some(at) => {
                assert(info.dims@.take(info.dims@.len() as int) =~= info.dims@);
                let n: u64 = element_count(info.dims.as_slice());
                Ok(Some(TensorRead { kind, at, elements: n }))
            },
        },
    }
}

/// A tensor of one layer always lands under its kind, and a tensor of another
/// layer changes nothing.
pub proof fn law_rekey_keeps_only_the_layer(
    raw: Seq<NamedTensor>,
    next: NamedTensor,
    layer_index: usize,
)
    ensures
        (next.name matches Some(n) && n.names_layer(layer_index)) ==> layer_tensors(
            raw.push(next),
            layer_index,
        ) == layer_tensors(raw, layer_index).insert(next.name->Some_0.kind, next.words@),
        !(next.name matches Some(n) && n.names_layer(layer_index)) ==> layer_tensors(
            raw.push(next),
            layer_index,
        ) == layer_tensors(raw, layer_index),
{
    assert(raw.push(next).drop_last() =~= raw);
}

/// Which tensors a layer has: of every kind the words of the last one that carries
/// the layer's number and is of a kind that layers have; and no others.
pub proof fn law_last_tensor_of_a_kind_counts(
    raw: Seq<NamedTensor>,
    layer_index: usize,
    kind: DsV4TensorKind,
)
    ensures
        match last_of_kind(raw, layer_index, kind, raw.len()) {
            Some(i) => {
                &&& 0 <= i < raw.len()
                &&& raw[i].name is Some
                &&& raw[i].name->Some_0.per_layer
                &&& raw[i].name->Some_0.layer == Some(layer_index)
                &&& raw[i].name->Some_0.kind == kind
                &&& layer_tensors(raw, layer_index).contains_key(kind)
                &&& layer_tensors(raw, layer_index)[kind] == raw[i].words@
            },
            None => !layer_tensors(raw, layer_index).contains_key(kind),
        },
    decreases raw.len(),
{
    if raw.len() > 0 {
        let front = raw.drop_last();
        law_last_tensor_of_a_kind_counts(front, layer_index, kind);
        lemma_last_of_front(raw, layer_index, kind, front.len());
    }
}

/// The place of the last of the first `n` tensors that is of a kind and carries the
/// layer's number.
pub open spec fn last_of_kind(
    raw: Seq<NamedTensor>,
    layer_index: usize,
    kind: DsV4TensorKind,
    n: nat,
) -> Option<int>
    decreases n,
{
    if n == 0 {
        None
    } else if raw[n - 1].name matches Some(p) && p.per_layer && p.layer == Some(layer_index)
        && p.kind == kind {
        Some(n - 1)
    } else {
        last_of_kind(raw, layer_index, kind, (n - 1) as nat)
    }
}

proof fn lemma_last_of_front(
    raw: Seq<NamedTensor>,
    layer_index: usize,
    kind: DsV4TensorKind,
    n: nat,
)
    requires
        n < raw.len(),
    ensures
        last_of_kind(raw.drop_last(), layer_index, kind, n) == last_of_kind(
            raw,
            layer_index,
            kind,
            n,
        ),
    decreases n,
{
    if n > 0 {
        lemma_last_of_front(raw, layer_index, kind, (n - 1) as nat);
    }
}

/// A tensor's number of elements is the product of its dimensions.
pub proof fn law_elements_are_a_product(dims: Seq<u64>, d: u64)
    ensures
        elements(Seq::<u64>::empty()) == 1,
        elements(dims.push(d)) == elements(dims) * d,
{
    assert(dims.push(d).drop_last() =~= dims);
}

/// Which kind a name is wanted as: that of the last wanted tensor of the name, and
/// none where no wanted tensor has it.
pub proof fn law_wanted_by_name(want: Seq<WantedTensor>, name: Seq<char>)
    ensures
        match wanted_kind(want, name) {
            Some(kind) => exists|i: int|
                {
                    &&& 0 <= i < want.len()
                    &&& (#[trigger] want[i]).name@ == name
                    &&& want[i].kind == kind
                    &&& forall|j: int| i < j < want.len() ==> (#[trigger] want[j]).name@ != name
                },
            None => forall|i: int| 0 <= i < want.len() ==> (#[trigger] want[i]).name@ != name,
        },
    decreases want.len(),
{
    if want.len() > 0 {
        let front = want.drop_last();
        if want.last().name@ == name {
            assert(want[want.len() - 1].name@ == name);
        } else {
            law_wanted_by_name(front, name);
            match wanted_kind(front, name) {
                Some(kind) => {
                    let i = choose|i: int|
                        {
                            &&& 0 <= i < front.len()
                            &&& (#[trigger] front[i]).name@ == name
                            &&& front[i].kind == kind
                            &&& forall|j: int|
                                i < j < front.len() ==> (#[trigger] front[j]).name@ != name
                        };
                    assert(want[i].name@ == name);
                    assert forall|j: int| i < j < want.len() implies (#[trigger] want[j]).name@
                        != name by {
                        if j < front.len() {
                            assert(front[j] == want[j]);
                        }
                    }
                },
                None => {
                    assert forall|i: int| 0 <= i < want.len() implies (#[trigger] want[i]).name@
                        != name by {
                        if i < front.len() {
                            assert(front[i] == want[i]);
                        }
                    }
                },
            }
        }
    }
}

/// What the error of an offset that does not fit says.
pub proof fn law_offset_error_text(layer_index: usize, name: Seq<char>)
    ensures
        offset_overflow_text(layer_index, name) == "DSv4 layer "@ + decimal(layer_index as nat)
            + ": "@ + name + " offset overflow"@,
{
}

} // verus!
