//! Host-side decisions of the device backend: cache keys and slots, what it can
//! do, and the checks before a call.
use vstd::prelude::*;
use vstd::string::*;
use crate::backend::capability::Capability;
use crate::cuda::error::CudaInitError;
use crate::text::{copy_text, decimal, decimal_text};

verus! {

/// Where the hash of a buffer's contents starts.
pub const HASH_START: u64 = 0xcbf2_9ce4_8422_2325;

/// What the hash is multiplied by after every byte.
pub const HASH_FACTOR: u64 = 0x0000_0100_0000_01b3;

/// What a host buffer is known by in a device cache: where it stands, how long
/// it is, and a hash of its contents.
#[derive(Clone, Copy, Debug, Eq, Hash, PartialEq, Structural)]
pub struct DeviceBytesKey {
    pub ptr: usize,
    pub len: usize,
    pub hash: u64,
}

/// The hash with one more byte.
pub open spec fn hash_byte(h: u64, b: u8) -> u64 {
    (h ^ (b as u64)).wrapping_mul(HASH_FACTOR)
}

/// The hash of a buffer's contents: every byte in turn is mixed in.
pub open spec fn content_hash(bytes: Seq<u8>) -> u64
    decreases bytes.len(),
{
    if bytes.len() == 0 {
        HASH_START
    } else {
        hash_byte(content_hash(bytes.drop_last()), bytes.last())
    }
}

/// The key of a buffer at an address.
pub open spec fn key_of(bytes: Seq<u8>, ptr: usize) -> DeviceBytesKey {
    DeviceBytesKey { ptr, len: bytes.len() as usize, hash: content_hash(bytes) }
}

impl DeviceBytesKey {
    /// The key of a buffer that stands at address `ptr`.
    pub fn from_slice(bytes: &[u8], ptr: usize) -> (k: Self)
        ensures
            k == key_of(bytes@, ptr),
    {
        let len: usize = bytes.len();
        let mut hash: u64 = HASH_START;
        let mut i: usize = 0;
        assert(bytes@.take(0).len() == 0);
        while i < len
            invariant
                i <= len,
                len == bytes@.len(),
                hash == content_hash(bytes@.take(i as int)),
            decreases len - i,
        {
            hash = (hash ^ (bytes[i] as u64)).wrapping_mul(HASH_FACTOR);
            i = i + 1;
            assert(bytes@.take(i as int).drop_last() =~= bytes@.take(i - 1));
        }
        assert(bytes@.take(len as int) =~= bytes@);
        DeviceBytesKey { ptr, len, hash }
    }
}

/// Whether two buffers hold the same bytes.
fn same_bytes(a: &[u8], b: &[u8]) -> (r: bool)
    ensures
        r == (a@ == b@),
{
    if a.len() != b.len() {
        return false;
    }
    let mut i: usize = 0;
    while i < a.len()
        invariant
            i <= a@.len(),
            a@.len() == b@.len(),
            forall|k: int| 0 <= k < i ==> a@[k] == b@[k],
        decreases a@.len() - i,
    {
        if a[i] != b[i] {
            return false;
        }
        i = i + 1;
    }
    assert(a@ =~= b@);
    true
}

/// Which slot of a device cache holds which host buffer. The slots number the
/// device buffers in the order in which they were uploaded. A slot keeps the
/// bytes that were uploaded, so that buffers of one key are still told apart.
#[derive(Debug)]
pub struct DeviceCache {
    keys: Vec<DeviceBytesKey>,
    contents: Vec<Vec<u8>>,
}

impl DeviceCache {
    /// The address and the bytes of every slot's buffer.
    pub closed spec fn view(&self) -> Seq<(usize, Seq<u8>)> {
        Seq::new(self.keys@.len(), |i: int| (self.keys@[i].ptr, self.contents@[i]@))
    }

    /// Every slot has the key of its buffer.
    pub closed spec fn keyed(&self) -> bool {
        &&& self.keys@.len() == self.contents@.len()
        &&& forall|i: int|
            0 <= i < self.keys@.len() ==> #[trigger] self.keys@[i] == key_of(
                self.contents@[i]@,
                self.keys@[i].ptr,
            )
    }

    /// Every slot has its key, and no buffer has two slots.
    pub open spec fn wf(&self) -> bool {
        &&& self.keyed()
        &&& forall|i: int, j: int|
            0 <= i < self@.len() && 0 <= j < self@.len() && #[trigger] self@[i]
                == #[trigger] self@[j] ==> i == j
    }

    /// A cache without slots.
    pub fn new() -> (c: Self)
        ensures
            c.wf(),
            c@.len() == 0,
    {
        DeviceCache { keys: Vec::new(), contents: Vec::new() }
    }

    /// How many slots there are.
    pub fn len(&self) -> (n: usize)
        ensures
            n == self@.len(),
    {
        self.keys.len()
    }

    /// The slot of a buffer that stands at address `ptr`: one that was uploaded
    /// from there with the same bytes.
    pub fn get(&self, bytes: &[u8], ptr: usize) -> (r: Option<usize>)
        requires
            self.wf(),
        ensures
            match r {
                Some(i) => i < self@.len() && self@[i as int] == (ptr, bytes@),
                None => !self@.contains((ptr, bytes@)),
            },
    {
        let key: DeviceBytesKey = DeviceBytesKey::from_slice(bytes, ptr);
        let mut i: usize = 0;
        while i < self.keys.len()
            invariant
                i <= self.keys@.len(),
                self.wf(),
                key == key_of(bytes@, ptr),
                forall|k: int| 0 <= k < i ==> #[trigger] self@[k] != (ptr, bytes@),
            decreases self.keys@.len() - i,
        {
            if self.keys[i] == key && same_bytes(self.contents[i].as_slice(), bytes) {
                return Some(i);
            }
            i = i + 1;
        }
        None
    }

    /// The slot of a buffer that stands at address `ptr`, made where there is
    /// none. A buffer that has one keeps it, so whoever uploaded it second drops
    /// the second copy. No buffer gets the slot of other bytes.
    pub fn get_or_insert(&mut self, bytes: &[u8], ptr: usize) -> (i: usize)
        requires
            old(self).wf(),
        ensures
            final(self).wf(),
            i < final(self)@.len(),
            final(self)@[i as int] == (ptr, bytes@),
            old(self)@.contains((ptr, bytes@)) ==> final(self)@ == old(self)@,
            !old(self)@.contains((ptr, bytes@)) ==> final(self)@ == old(self)@.push((ptr, bytes@))
                && i == old(self)@.len(),
    {
        match self.get(bytes, ptr) {
            Some(i) => i,
            None => {
                let ghost before = *self;
                let i: usize = self.keys.len();
                let copy: Vec<u8> = vstd::slice::slice_to_vec(bytes);
                assert(copy@ =~= bytes@);
                self.keys.push(DeviceBytesKey::from_slice(bytes, ptr));
                self.contents.push(copy);
                assert(self@ =~= before@.push((ptr, bytes@)));
                i
            },
        }
    }
}

/// Buffers that stand at one address but hold different bytes never share a
/// slot.
pub proof fn law_slot_holds_the_bytes(c: DeviceCache, ptr: usize, a: Seq<u8>, b: Seq<u8>, i: int, j: int)
    requires
        c.wf(),
        0 <= i < c@.len(),
        0 <= j < c@.len(),
        c@[i] == (ptr, a),
        c@[j] == (ptr, b),
    ensures
        (i == j) == (a == b),
{
}

/// What the device backend accelerates. Kernels of the second toolchain are
/// there where the build brought them.
pub open spec fn cuda_supports(cap: Capability, oxide: bool) -> bool {
    match cap {
        Capability::CudaOxide => oxide,
        _ => true,
    }
}

/// What the host keeps of the device backend: which host buffers are on the
/// device, one cache for every form in which weights are uploaded.
#[derive(Debug)]
pub struct CudaBackend {
    /// Whether the build brought the second toolchain's kernels.
    pub cuda_oxide: bool,
    pub q4k_device_cache: DeviceCache,
    pub q6k_f32_device_cache: DeviceCache,
    pub q6k_packed_device_cache: DeviceCache,
    pub q4k_f32_device_cache: DeviceCache,
    pub q4k_f16_device_cache: DeviceCache,
    pub q6k_f16_device_cache: DeviceCache,
    pub f32_norm_device_cache: DeviceCache,
    pub f16_f32_device_cache: DeviceCache,
}

impl CudaBackend {
    /// No buffer has two slots in any cache.
    pub open spec fn wf(&self) -> bool {
        &&& self.q4k_device_cache.wf()
        &&& self.q6k_f32_device_cache.wf()
        &&& self.q6k_packed_device_cache.wf()
        &&& self.q4k_f32_device_cache.wf()
        &&& self.q4k_f16_device_cache.wf()
        &&& self.q6k_f16_device_cache.wf()
        &&& self.f32_norm_device_cache.wf()
        &&& self.f16_f32_device_cache.wf()
    }

    /// A backend that has uploaded nothing.
    pub fn new(cuda_oxide: bool) -> (b: Self)
        ensures
            b.wf(),
            b.cuda_oxide == cuda_oxide,
            b.q4k_device_cache@.len() == 0,
            b.q6k_f32_device_cache@.len() == 0,
            b.q6k_packed_device_cache@.len() == 0,
            b.q4k_f32_device_cache@.len() == 0,
            b.q4k_f16_device_cache@.len() == 0,
            b.q6k_f16_device_cache@.len() == 0,
            b.f32_norm_device_cache@.len() == 0,
            b.f16_f32_device_cache@.len() == 0,
    {
        CudaBackend {
            cuda_oxide,
            q4k_device_cache: DeviceCache::new(),
            q6k_f32_device_cache: DeviceCache::new(),
            q6k_packed_device_cache: DeviceCache::new(),
            q4k_f32_device_cache: DeviceCache::new(),
            q4k_f16_device_cache: DeviceCache::new(),
            q6k_f16_device_cache: DeviceCache::new(),
            f32_norm_device_cache: DeviceCache::new(),
            f16_f32_device_cache: DeviceCache::new(),
        }
    }

    /// How many packed weight buffers are on the device.
    pub fn q4k_device_cache_len(&self) -> (n: usize)
        ensures
            n == self.q4k_device_cache@.len(),
    {
        self.q4k_device_cache.len()
    }

    /// How many dequantised six-bit weight buffers are on the device.
    pub fn q6k_f32_device_cache_len(&self) -> (n: usize)
        ensures
            n == self.q6k_f32_device_cache@.len(),
    {
        self.q6k_f32_device_cache.len()
    }

    /// What the backend accelerates.
    pub fn supports(&self, cap: Capability) -> (r: bool)
        ensures
            r == cuda_supports(cap, self.cuda_oxide),
    {
        match cap {
            Capability::CudaOxide => self.cuda_oxide,
            Capability::Cuda
            | Capability::F32Gemv
            | Capability::QuantMatVec
            | Capability::Q4VecMat
            | Capability::FlashAttentionV2
            | Capability::KvCompressionRotorQuant
            | Capability::DecodeToken
            | Capability::PrefillQ4 => true,
        }
    }

    /// The backend's name.
    pub fn name(&self) -> (t: String)
        ensures
            t@ == "cuda"@,
    {
        copy_text("cuda")
    }
}

/// What the backend says of its device.
pub fn device_info(ordinal: usize) -> (t: String)
    ensures
        t@ == "cuda(device="@ + decimal(ordinal as nat) + ", cublas=ready)"@,
{
    let mut t: String = String::from_str("cuda(device=");
    t.append(decimal_text(ordinal as u64).as_str());
    t.append(", cublas=ready)");
    t
}

/// Which copy into a part of a device buffer is meant.
#[derive(Clone, Copy, Debug, PartialEq, Eq, Structural)]
pub enum CopyKind {
    Words,
    Halves,
}

/// How a copy is named in a refusal.
pub open spec fn copy_name(kind: CopyKind) -> Seq<char> {
    match kind {
        CopyKind::Words => "htod_into_slice OOB: offset "@,
        CopyKind::Halves => "htod_f32_as_f16 OOB: offset "@,
    }
}

/// Whether a copy of `len` values to `offset` stays inside a buffer.
pub fn check_copy(kind: CopyKind, offset: usize, len: usize, dst: usize) -> (r: Result<
    (),
    CudaInitError,
>)
    requires
        offset + len <= usize::MAX,
    ensures
        if offset + len > dst {
            r matches Err(CudaInitError::DriverMissing(t)) && t@ == copy_name(kind) + decimal(
                offset as nat,
            ) + " + len "@ + decimal(len as nat) + " > dst "@ + decimal(dst as nat)
        } else {
            r is Ok
        },
{
    if offset + len > dst {
        let mut t: String = match kind {
            CopyKind::Words => String::from_str("htod_into_slice OOB: offset "),
            CopyKind::Halves => String::from_str("htod_f32_as_f16 OOB: offset "),
        };
        t.append(decimal_text(offset as u64).as_str());
        t.append(" + len ");
        t.append(decimal_text(len as u64).as_str());
        t.append(" > dst ");
        t.append(decimal_text(dst as u64).as_str());
        return Err(CudaInitError::DriverMissing(t));
    }
    Ok(())
}

/// A product that goes through dequantised weights.
#[derive(Clone, Copy, Debug, PartialEq, Eq, Structural)]
pub enum DeviceMatvec {
    Q6k,
    Q4kf,
}

/// How a product is named in a refusal.
pub open spec fn matvec_name(kind: DeviceMatvec) -> Seq<char> {
    match kind {
        DeviceMatvec::Q6k => "q6k_matvec_device input mismatch: x_dev.len="@,
        DeviceMatvec::Q4kf => "q4kf_matvec_device input mismatch: x_dev.len="@,
    }
}

/// Whether a product's input has the width of its weights; gives how many
/// weights there are.
pub fn check_device_matvec(kind: DeviceMatvec, x_len: usize, rows: usize, hidden: usize) -> (r:
    Result<usize, CudaInitError>)
    requires
        x_len == hidden ==> rows * hidden <= usize::MAX,
    ensures
        if x_len != hidden {
            r matches Err(CudaInitError::DriverMissing(t)) && t@ == matvec_name(kind) + decimal(
                x_len as nat,
            ) + " hidden="@ + decimal(hidden as nat)
        } else {
            r matches Ok(n) && n == rows * hidden
        },
{
    if x_len != hidden {
        let mut t: String = match kind {
            DeviceMatvec::Q6k => String::from_str("q6k_matvec_device input mismatch: x_dev.len="),
            DeviceMatvec::Q4kf => String::from_str("q4kf_matvec_device input mismatch: x_dev.len="),
        };
        t.append(decimal_text(x_len as u64).as_str());
        t.append(" hidden=");
        t.append(decimal_text(hidden as u64).as_str());
        return Err(CudaInitError::DriverMissing(t));
    }
    Ok(rows * hidden)
}

/// How many half-precision weights a product of an `n` by `k` matrix reads, where
/// its input has the matrix's width and the weights are all there.
pub fn f16_gemv_elements(w_len: usize, x_len: usize, n: usize, k: usize) -> (r: Option<usize>)
    requires
        x_len == k ==> n * k * 2 <= usize::MAX,
    ensures
        r == (if x_len != k || w_len < n * k * 2 {
            None
        } else {
            Some((n * k) as usize)
        }),
{
    if x_len != k {
        return None;
    }
    proof {
        assert(n * k <= n * k * 2) by (nonlinear_arith)
            requires
                n >= 0,
                k >= 0,
        ;
    }
    let elements: usize = n * k;
    if w_len < elements * 2 {
        None
    } else {
        Some(elements)
    }
}

/// The hash of some bytes: it starts at a fixed value, and every byte in order is
/// mixed into the low bits before the hash is multiplied, without the bits that
/// overflow.
pub proof fn law_hash_of_bytes(bytes: Seq<u8>, b: u8)
    ensures
        content_hash(Seq::<u8>::empty()) == 0xcbf2_9ce4_8422_2325,
        content_hash(bytes.push(b)) == (content_hash(bytes) ^ (b as u64)).wrapping_mul(
            0x0000_0100_0000_01b3,
        ),
{
    assert(bytes.push(b).drop_last() =~= bytes);
}

/// The key of some bytes holds where they lie, how many they are and their hash.
pub proof fn law_key_of_bytes(bytes: Seq<u8>, ptr: usize)
    requires
        bytes.len() <= usize::MAX,
    ensures
        key_of(bytes, ptr).ptr == ptr,
        key_of(bytes, ptr).len == bytes.len(),
        key_of(bytes, ptr).hash == content_hash(bytes),
{
}

/// What the device backend can do: everything, but for what needs the second kernel
/// library, which it can where that is there.
pub proof fn law_device_capabilities(cap: Capability, oxide: bool)
    ensures
        !(cap is CudaOxide) ==> cuda_supports(cap, oxide),
        cap is CudaOxide ==> cuda_supports(cap, oxide) == oxide,
{
}

/// What the errors of copies and products on the device start with.
pub proof fn law_device_error_texts(copy: CopyKind, matvec: DeviceMatvec)
    ensures
        copy is Words ==> copy_name(copy) == "htod_into_slice OOB: offset "@,
        copy is Halves ==> copy_name(copy) == "htod_f32_as_f16 OOB: offset "@,
        matvec is Q6k ==> matvec_name(matvec) == "q6k_matvec_device input mismatch: x_dev.len="@,
        matvec is Q4kf ==> matvec_name(matvec) == "q4kf_matvec_device input mismatch: x_dev.len="@,
{
}

} // verus!
