//! The `dsv4_attn.bin` wire format: one DeepSeek V4 layer's attention weights.
//!
//! A blob holds, little-endian and without padding:
//! the magic `D4VA`, a 16-bit version, the five projections in a fixed order
//! (`type:u32 | rows:u32 | cols:u32 | byte_len:u64 | bytes`), three vectors of
//! 32-bit words (`len:u32 | len words`), one byte that says whether per-head
//! sinks follow, and the sinks. Quantized bytes pass through unchanged; the
//! vectors are floating-point values carried as their bit patterns.
use vstd::prelude::*;
use vstd::string::*;
use crate::attention::dsv4_gguf_reader::{RawExpertTensor, RawTensorModel};
use crate::text::{decimal, decimal_list, decimal_list_text, decimal_text};
use crate::words::{
    law_low_byte_comes_first, law_worth_of_bytes, le_bytes, le_value, lemma_le_bytes_len,
    lemma_le_bytes_of_value, lemma_le_value_of_bytes, lemma_pow256_values, lemma_word_bytes_at,
    lemma_word_bytes_len, lemma_words_of_word_bytes, push_le, push_words, read_words, value_le,
    word_bytes, words_of,
};

verus! {

/// Version of the format that this module reads and writes.
pub const VERSION: u16 = 1;

/// The four bytes that every blob starts with: `D4VA`.
pub open spec fn magic() -> Seq<u8> {
    seq![0x44u8, 0x34u8, 0x56u8, 0x41u8]
}

/// One layer's attention weights: the five raw projections, the norms and the
/// sinks.
#[derive(Clone)]
pub struct DsV4AttnWeights {
    /// `(q_lora_rank, n_embd)` Q-down.
    pub q_a: RawExpertTensor,
    /// `(n_head*head_dim, q_lora_rank)` Q-up.
    pub q_b: RawExpertTensor,
    /// `(head_dim, n_embd)` latent KV-down.
    pub kv_latent: RawExpertTensor,
    /// `(n_groups*o_lora_rank, group_dim)` grouped O-a.
    pub output_a: RawExpertTensor,
    /// `(n_embd, o_lora_rank*n_groups)` shared O-b.
    pub output_b: RawExpertTensor,
    /// `(n_embd,)` input norm gain.
    pub attn_norm: Vec<u32>,
    /// `(q_lora_rank,)` norm gain on the Q-down output.
    pub q_a_norm: Vec<u32>,
    /// `(head_dim,)` norm gain on the latent output.
    pub kv_a_norm: Vec<u32>,
    /// Optional `(n_head,)` per-head attention sinks.
    pub attn_sinks: Option<Vec<u32>>,
}

/// What a [`DsV4AttnWeights`] stands for.
pub struct AttnModel {
    pub q_a: RawTensorModel,
    pub q_b: RawTensorModel,
    pub kv_latent: RawTensorModel,
    pub output_a: RawTensorModel,
    pub output_b: RawTensorModel,
    pub attn_norm: Seq<u32>,
    pub q_a_norm: Seq<u32>,
    pub kv_a_norm: Seq<u32>,
    pub attn_sinks: Option<Seq<u32>>,
}

/// The words of an optional vector.
pub open spec fn optional_words(v: Option<Vec<u32>>) -> Option<Seq<u32>> {
    match v {
        Some(w) => Some(w@),
        None => None,
    }
}

impl View for DsV4AttnWeights {
    type V = AttnModel;

    open spec fn view(&self) -> AttnModel {
        AttnModel {
            q_a: self.q_a@,
            q_b: self.q_b@,
            kv_latent: self.kv_latent@,
            output_a: self.output_a@,
            output_b: self.output_b@,
            attn_norm: self.attn_norm@,
            q_a_norm: self.q_a_norm@,
            kv_a_norm: self.kv_a_norm@,
            attn_sinks: optional_words(self.attn_sinks),
        }
    }
}

/// Why a blob could not be read.
#[derive(Clone, Copy, Debug, PartialEq, Eq)]
pub enum DsV4AttnPersistError {
    BadMagic([u8; 4]),
    UnsupportedVersion(u16),
    Truncated { what: &'static str, need: usize, have: usize },
}

impl DsV4AttnPersistError {
    /// The text of the message.
    pub open spec fn message_text(self) -> Seq<char> {
        match self {
            DsV4AttnPersistError::BadMagic(m) => "bad magic ["@ + decimal_list(widened(m@))
                + "] (expected ["@ + decimal_list(widened(magic())) + "])"@,
            DsV4AttnPersistError::UnsupportedVersion(v) => "unsupported version "@ + decimal(
                v as nat,
            ),
            DsV4AttnPersistError::Truncated { what, need, have } => "truncated reading "@ + what@
                + ": need "@ + decimal(need as nat) + ", have "@ + decimal(have as nat),
        }
    }

    /// The message for a reader.
    pub fn message(&self) -> (t: String)
        ensures
            t@ == self.message_text(),
    {
        match self {
            DsV4AttnPersistError::BadMagic(m) => {
                let mut t: String = String::from_str("bad magic [");
                let got: String = decimal_list_text(widen4(*m).as_slice());
                t.append(got.as_str());
                t.append("] (expected [");
                let expected: String = decimal_list_text(widen4(magic_bytes()).as_slice());
                t.append(expected.as_str());
                t.append("])");
                t
            },
            DsV4AttnPersistError::UnsupportedVersion(v) => {
                let mut t: String = String::from_str("unsupported version ");
                let number: String = decimal_text(*v as u64);
                t.append(number.as_str());
                t
            },
            DsV4AttnPersistError::Truncated { what, need, have } => {
                let mut t: String = String::from_str("truncated reading ");
                t.append(what);
                t.append(": need ");
                let n: String = decimal_text(*need as u64);
                t.append(n.as_str());
                t.append(", have ");
                let h: String = decimal_text(*have as u64);
                t.append(h.as_str());
                t
            },
        }
    }
}

/// Bytes as numbers of 64 bits.
pub open spec fn widened(s: Seq<u8>) -> Seq<u64> {
    s.map_values(|b: u8| b as u64)
}

fn widen4(m: [u8; 4]) -> (w: [u64; 4])
    ensures
        w@ == widened(m@),
{
    let w: [u64; 4] = [m[0] as u64, m[1] as u64, m[2] as u64, m[3] as u64];
    assert(w@ =~= widened(m@));
    w
}

fn magic_bytes() -> (m: [u8; 4])
    ensures
        m@ == magic(),
{
    let m: [u8; 4] = [0x44u8, 0x34u8, 0x56u8, 0x41u8];
    assert(m@ =~= magic());
    m
}

// ---- what a blob holds -----------------------------------------------------

/// The low 32 bits of a size.
pub open spec fn low32(n: nat) -> nat {
    n % 0x1_0000_0000
}

/// `type:u32 | rows:u32 | cols:u32 | byte_len:u64 | bytes`.
#[verifier::opaque]
pub open spec fn raw_bytes(t: RawTensorModel) -> Seq<u8> {
    le_bytes(t.tensor_type as nat, 4) + (le_bytes(low32(t.rows as nat), 4) + (le_bytes(
        low32(t.cols as nat),
        4,
    ) + (le_bytes(t.bytes.len(), 8) + t.bytes)))
}

/// `len:u32 | len words`.
#[verifier::opaque]
pub open spec fn vec_bytes(v: Seq<u32>) -> Seq<u8> {
    le_bytes(low32(v.len()), 4) + word_bytes(v)
}

/// One byte that says whether sinks follow, and the sinks.
pub open spec fn sinks_bytes(s: Option<Seq<u32>>) -> Seq<u8> {
    match s {
        Some(v) => seq![1u8] + vec_bytes(v),
        None => seq![0u8],
    }
}

/// The blob of a layer's attention weights.
pub open spec fn attn_bytes(w: AttnModel) -> Seq<u8> {
    magic() + (le_bytes(VERSION as nat, 2) + (raw_bytes(w.q_a) + (raw_bytes(w.q_b) + (raw_bytes(
        w.kv_latent,
    ) + (raw_bytes(w.output_a) + (raw_bytes(w.output_b) + (vec_bytes(w.attn_norm) + (vec_bytes(
        w.q_a_norm,
    ) + (vec_bytes(w.kv_a_norm) + sinks_bytes(w.attn_sinks))))))))))
}

// ---- what reading gives ----------------------------------------------------

/// What a read yields: the value and the bytes behind it, or why it failed.
pub type Read<T> = Result<(T, Seq<u8>), DsV4AttnPersistError>;

/// The next `n` bytes.
pub open spec fn read_take(s: Seq<u8>, n: nat, what: &'static str) -> Read<Seq<u8>> {
    if n > s.len() {
        Err(
            DsV4AttnPersistError::Truncated { what, need: n as usize, have: s.len() as usize },
        )
    } else {
        Ok((s.take(n as int), s.skip(n as int)))
    }
}

/// The next `n` bytes as a number.
pub open spec fn read_le(s: Seq<u8>, n: nat, what: &'static str) -> Read<nat> {
    match read_take(s, n, what) {
        Ok((b, rest)) => Ok((le_value(b), rest)),
        Err(e) => Err(e),
    }
}

/// The next raw tensor.
#[verifier::opaque]
pub open spec fn read_raw_tensor(s: Seq<u8>, what: &'static str) -> Read<RawTensorModel> {
    match read_le(s, 4, what) {
        Err(e) => Err(e),
        Ok((tensor_type, s1)) => match read_le(s1, 4, what) {
            Err(e) => Err(e),
            Ok((rows, s2)) => match read_le(s2, 4, what) {
                Err(e) => Err(e),
                Ok((cols, s3)) => match read_le(s3, 8, what) {
                    Err(e) => Err(e),
                    Ok((byte_len, s4)) => match read_take(
                        s4,
                        (byte_len as u64 as usize) as nat,
                        what,
                    ) {
                        Err(e) => Err(e),
                        Ok((bytes, s5)) => Ok(
                            (
                                RawTensorModel {
                                    bytes,
                                    tensor_type: tensor_type as u32,
                                    rows: rows as usize,
                                    cols: cols as usize,
                                },
                                s5,
                            ),
                        ),
                    },
                },
            },
        },
    }
}

/// How many of some bytes a read of a raw tensor takes that fails: the whole
/// numbers of its header that are there.
pub open spec fn raw_header_read(len: nat) -> int {
    if len < 4 {
        0
    } else if len < 8 {
        4
    } else if len < 12 {
        8
    } else if len < 20 {
        12
    } else {
        20
    }
}

/// How many of some bytes a read of a vector takes that fails: its length, where
/// that is there.
pub open spec fn count_read(len: nat) -> int {
    if len < 4 {
        0
    } else {
        4
    }
}

/// The byte size of `n` words, or the largest size there is where that does
/// not fit.
pub open spec fn words_size(n: nat) -> nat {
    if n * 4 > usize::MAX {
        usize::MAX as nat
    } else {
        n * 4
    }
}

/// The next vector of words.
#[verifier::opaque]
pub open spec fn read_word_vec(s: Seq<u8>, what: &'static str) -> Read<Seq<u32>> {
    match read_le(s, 4, what) {
        Err(e) => Err(e),
        Ok((n, s1)) => match read_take(s1, words_size(n), what) {
            Err(e) => Err(e),
            Ok((b, s2)) => Ok((words_of(b), s2)),
        },
    }
}

/// The sinks, where the next byte is not zero.
pub open spec fn read_sinks(s: Seq<u8>) -> Read<Option<Seq<u32>>> {
    match read_le(s, 1, "has_sinks") {
        Err(e) => Err(e),
        Ok((flag, s1)) => if flag == 0 {
            Ok((None, s1))
        } else {
            match read_word_vec(s1, "attn_sinks") {
                Err(e) => Err(e),
                Ok((v, s2)) => Ok((Some(v), s2)),
            }
        },
    }
}

/// The three norms and the sinks, behind the five projections.
pub open spec fn read_norms(s: Seq<u8>) -> Read<
    (Seq<u32>, Seq<u32>, Seq<u32>, Option<Seq<u32>>),
> {
    match read_word_vec(s, "attn_norm") {
        Err(e) => Err(e),
        Ok((attn_norm, s1)) => match read_word_vec(s1, "q_a_norm") {
            Err(e) => Err(e),
            Ok((q_a_norm, s2)) => match read_word_vec(s2, "kv_a_norm") {
                Err(e) => Err(e),
                Ok((kv_a_norm, s3)) => match read_sinks(s3) {
                    Err(e) => Err(e),
                    Ok((sinks, s4)) => Ok(((attn_norm, q_a_norm, kv_a_norm, sinks), s4)),
                },
            },
        },
    }
}

/// Everything behind the magic and the version.
pub open spec fn read_body(s: Seq<u8>) -> Read<AttnModel> {
    match read_raw_tensor(s, "q_a") {
        Err(e) => Err(e),
        Ok((q_a, s1)) => match read_raw_tensor(s1, "q_b") {
            Err(e) => Err(e),
            Ok((q_b, s2)) => match read_raw_tensor(s2, "kv_latent") {
                Err(e) => Err(e),
                Ok((kv_latent, s3)) => match read_raw_tensor(s3, "output_a") {
                    Err(e) => Err(e),
                    Ok((output_a, s4)) => match read_raw_tensor(s4, "output_b") {
                        Err(e) => Err(e),
                        Ok((output_b, s5)) => match read_norms(s5) {
                            Err(e) => Err(e),
                            Ok((n, s6)) => Ok(
                                (
                                    AttnModel {
                                        q_a,
                                        q_b,
                                        kv_latent,
                                        output_a,
                                        output_b,
                                        attn_norm: n.0,
                                        q_a_norm: n.1,
                                        kv_a_norm: n.2,
                                        attn_sinks: n.3,
                                    },
                                    s6,
                                ),
                            ),
                        },
                    },
                },
            },
        },
    }
}

/// What a blob reads as. Bytes behind the last field are not looked at.
pub open spec fn read_attn(s: Seq<u8>) -> Read<AttnModel> {
    match read_take(s, 4, "magic") {
        Err(e) => Err(e),
        Ok((m, s1)) => if m != magic() {
            Err(DsV4AttnPersistError::BadMagic([m[0], m[1], m[2], m[3]]))
        } else {
            match read_le(s1, 2, "version") {
                Err(e) => Err(e),
                Ok((v, s2)) => if v != VERSION as nat {
                    Err(DsV4AttnPersistError::UnsupportedVersion(v as u16))
                } else {
                    read_body(s2)
                },
            }
        },
    }
}

/// Eleven parts put together from the left are the same parts put together
/// from the right.
proof fn lemma_concat_eleven(p: Seq<Seq<u8>>)
    requires
        p.len() == 11,
    ensures
        p[0] + p[1] + p[2] + p[3] + p[4] + p[5] + p[6] + p[7] + p[8] + p[9] + p[10] == p[0] + (p[1]
            + (p[2] + (p[3] + (p[4] + (p[5] + (p[6] + (p[7] + (p[8] + (p[9] + p[10]))))))))),
{
    let l1 = p[0] + p[1];
    let l2 = l1 + p[2];
    let l3 = l2 + p[3];
    let l4 = l3 + p[4];
    let l5 = l4 + p[5];
    let l6 = l5 + p[6];
    let l7 = l6 + p[7];
    let l8 = l7 + p[8];
    let r9 = p[9] + p[10];
    let r8 = p[8] + r9;
    let r7 = p[7] + r8;
    let r6 = p[6] + r7;
    let r5 = p[5] + r6;
    let r4 = p[4] + r5;
    let r3 = p[3] + r4;
    let r2 = p[2] + r3;
    assert(l8 + p[9] + p[10] =~= l8 + r9);
    assert(l7 + p[8] + r9 =~= l7 + r8);
    assert(l6 + p[7] + r8 =~= l6 + r7);
    assert(l5 + p[6] + r7 =~= l5 + r6);
    assert(l4 + p[5] + r6 =~= l4 + r5);
    assert(l3 + p[4] + r5 =~= l3 + r4);
    assert(l2 + p[3] + r4 =~= l2 + r3);
    assert(l1 + p[2] + r3 =~= l1 + r2);
    assert(p[0] + p[1] + r2 =~= p[0] + (p[1] + r2));
}

// ---- writing ---------------------------------------------------------------

/// Appends `v` as four bytes.
pub fn put_u32(out: &mut Vec<u8>, v: u32)
    ensures
        final(out)@ == old(out)@ + le_bytes(v as nat, 4),
{
    push_le(out, v as u64, 4);
}

/// The low 32 bits of a size.
fn low_word(n: usize) -> (w: u32)
    ensures
        w as nat == low32(n as nat),
{
    let wide: u64 = n as u64;
    assert(wide as u32 == wide % 0x1_0000_0000) by (bit_vector);
    wide as u32
}

/// Appends a raw tensor.
pub fn put_raw(out: &mut Vec<u8>, t: &RawExpertTensor)
    ensures
        final(out)@ == old(out)@ + raw_bytes(t@),
{
    proof {
        reveal(raw_bytes);
    }
    let ghost before = out@;
    put_u32(out, t.tensor_type);
    put_u32(out, low_word(t.rows));
    put_u32(out, low_word(t.cols));
    push_le(out, t.bytes.len() as u64, 8);
    push_bytes(out, &t.bytes);
    assert(out@ =~= before + raw_bytes(t@));
}

/// Appends bytes.
fn push_bytes(out: &mut Vec<u8>, bytes: &Vec<u8>)
    ensures
        final(out)@ == old(out)@ + bytes@,
{
    let ghost before = out@;
    out.extend_from_slice(bytes.as_slice());
    assert(out@ =~= before + bytes@);
}

/// Appends a vector of words behind its length.
pub fn put_f32_vec(out: &mut Vec<u8>, v: &Vec<u32>)
    ensures
        final(out)@ == old(out)@ + vec_bytes(v@),
{
    proof {
        reveal(vec_bytes);
    }
    let ghost before = out@;
    put_u32(out, low_word(v.len()));
    push_words(out, v.as_slice());
    assert(out@ =~= before + vec_bytes(v@));
}

/// The blob of one layer's attention weights.
pub fn serialize_dsv4_attn(w: &DsV4AttnWeights) -> (out: Vec<u8>)
    ensures
        out@ == attn_bytes(w@),
{
    let mut out: Vec<u8> = Vec::new();
    let m: [u8; 4] = magic_bytes();
    out.push(m[0]);
    out.push(m[1]);
    out.push(m[2]);
    out.push(m[3]);
    assert(out@ =~= magic());
    push_le(&mut out, VERSION as u64, 2);
    put_raw(&mut out, &w.q_a);
    put_raw(&mut out, &w.q_b);
    put_raw(&mut out, &w.kv_latent);
    put_raw(&mut out, &w.output_a);
    put_raw(&mut out, &w.output_b);
    put_f32_vec(&mut out, &w.attn_norm);
    put_f32_vec(&mut out, &w.q_a_norm);
    put_f32_vec(&mut out, &w.kv_a_norm);
    let ghost before = out@;
    match &w.attn_sinks {
        Some(s) => {
            out.push(1u8);
            put_f32_vec(&mut out, s);
        },
        None => {
            out.push(0u8);
        },
    }
    assert(out@ =~= before + sinks_bytes(w@.attn_sinks));
    proof {
        let parts = seq![
            magic(),
            le_bytes(VERSION as nat, 2),
            raw_bytes(w.q_a@),
            raw_bytes(w.q_b@),
            raw_bytes(w.kv_latent@),
            raw_bytes(w.output_a@),
            raw_bytes(w.output_b@),
            vec_bytes(w.attn_norm@),
            vec_bytes(w.q_a_norm@),
            vec_bytes(w.kv_a_norm@),
            sinks_bytes(w@.attn_sinks),
        ];
        lemma_concat_eleven(parts);
    }
    out
}

// ---- reading ---------------------------------------------------------------

/// A place in a run of bytes. Its view is what is still to be read.
pub struct Cursor<'a> {
    buf: &'a [u8],
    pos: usize,
}

impl<'a> View for Cursor<'a> {
    type V = Seq<u8>;

    closed spec fn view(&self) -> Seq<u8> {
        self.buf@.skip(self.pos as int)
    }
}

impl<'a> Cursor<'a> {
    /// The place lies inside the bytes.
    pub closed spec fn wf(&self) -> bool {
        self.pos <= self.buf@.len() <= usize::MAX
    }

    /// At the start of the bytes.
    pub fn new(buf: &'a [u8]) -> (c: Self)
        ensures
            c.wf(),
            c@ == buf@,
    {
        let n: usize = buf.len();
        assert(buf@.len() == n);
        assert(buf@.skip(0) =~= buf@);
        Cursor { buf, pos: 0 }
    }

    /// The next `n` bytes; a failed read leaves the place as it is.
    pub fn take(&mut self, n: usize, what: &'static str) -> (r: Result<
        &'a [u8],
        DsV4AttnPersistError,
    >)
        requires
            old(self).wf(),
        ensures
            final(self).wf(),
            match read_take(old(self)@, n as nat, what) {
                Ok((b, rest)) => r is Ok && r->Ok_0@ == b && final(self)@ == rest,
                Err(e) => r == Err::<&'a [u8], _>(e) && *final(self) == *old(self),
            },
    {
        let have: usize = self.buf.len().saturating_sub(self.pos);
        if n > have {
            return Err(DsV4AttnPersistError::Truncated { what, need: n, have });
        }
        let ghost all = self.buf@;
        let ghost at = self.pos as int;
        let s: &'a [u8] = vstd::slice::slice_subrange(self.buf, self.pos, self.pos + n);
        self.pos = self.pos + n;
        assert(s@ =~= all.skip(at).take(n as int));
        assert(all.skip(at + n) =~= all.skip(at).skip(n as int));
        Ok(s)
    }

    /// The next four bytes.
    pub fn take_array4(&mut self, what: &'static str) -> (r: Result<
        [u8; 4],
        DsV4AttnPersistError,
    >)
        requires
            old(self).wf(),
        ensures
            final(self).wf(),
            match read_take(old(self)@, 4, what) {
                Ok((b, rest)) => r == Ok::<[u8; 4], DsV4AttnPersistError>(
                    [b[0], b[1], b[2], b[3]],
                ) && r->Ok_0@ == b && final(self)@ == rest,
                Err(e) => r == Err::<[u8; 4], _>(e) && *final(self) == *old(self),
            },
    {
        match self.take(4, what) {
            Ok(s) => {
                let a: [u8; 4] = [s[0], s[1], s[2], s[3]];
                assert(a@ =~= s@);
                Ok(a)
            },
            Err(e) => Err(e),
        }
    }

    /// The next `n` bytes as a number.
    fn read_number(&mut self, n: usize, what: &'static str) -> (r: Result<
        u64,
        DsV4AttnPersistError,
    >)
        requires
            old(self).wf(),
            n <= 8,
        ensures
            final(self).wf(),
            match read_le(old(self)@, n as nat, what) {
                Ok((v, rest)) => r is Ok && r->Ok_0 == v && v < crate::words::pow256(n as nat)
                    && final(self)@ == rest,
                Err(e) => r == Err::<u64, _>(e) && *final(self) == *old(self),
            },
    {
        match self.take(n, what) {
            Ok(s) => {
                proof {
                    lemma_le_bytes_of_value(s@);
                }
                Ok(value_le(s))
            },
            Err(e) => Err(e),
        }
    }

    /// The next byte.
    pub fn read_u8(&mut self, what: &'static str) -> (r: Result<u8, DsV4AttnPersistError>)
        requires
            old(self).wf(),
        ensures
            final(self).wf(),
            match read_le(old(self)@, 1, what) {
                Ok((v, rest)) => r is Ok && r->Ok_0 as nat == v && final(self)@ == rest,
                Err(e) => r == Err::<u8, _>(e) && *final(self) == *old(self),
            },
    {
        proof {
            lemma_pow256_values();
        }
        match self.read_number(1, what) {
            Ok(v) => Ok(v as u8),
            Err(e) => Err(e),
        }
    }

    /// The next two bytes as a number.
    pub fn read_u16(&mut self, what: &'static str) -> (r: Result<u16, DsV4AttnPersistError>)
        requires
            old(self).wf(),
        ensures
            final(self).wf(),
            match read_le(old(self)@, 2, what) {
                Ok((v, rest)) => r is Ok && r->Ok_0 as nat == v && final(self)@ == rest,
                Err(e) => r == Err::<u16, _>(e) && *final(self) == *old(self),
            },
    {
        proof {
            lemma_pow256_values();
        }
        match self.read_number(2, what) {
            Ok(v) => Ok(v as u16),
            Err(e) => Err(e),
        }
    }

    /// The next four bytes as a number.
    pub fn read_u32(&mut self, what: &'static str) -> (r: Result<u32, DsV4AttnPersistError>)
        requires
            old(self).wf(),
        ensures
            final(self).wf(),
            match read_le(old(self)@, 4, what) {
                Ok((v, rest)) => r is Ok && r->Ok_0 as nat == v && final(self)@ == rest,
                Err(e) => r == Err::<u32, _>(e) && *final(self) == *old(self),
            },
    {
        proof {
            lemma_pow256_values();
        }
        match self.read_number(4, what) {
            Ok(v) => Ok(v as u32),
            Err(e) => Err(e),
        }
    }

    /// The next eight bytes as a number.
    pub fn read_u64(&mut self, what: &'static str) -> (r: Result<u64, DsV4AttnPersistError>)
        requires
            old(self).wf(),
        ensures
            final(self).wf(),
            match read_le(old(self)@, 8, what) {
                Ok((v, rest)) => r is Ok && r->Ok_0 as nat == v && final(self)@ == rest,
                Err(e) => r == Err::<u64, _>(e) && *final(self) == *old(self),
            },
    {
        self.read_number(8, what)
    }

    /// The next raw tensor.
    pub fn read_raw(&mut self, what: &'static str) -> (r: Result<
        RawExpertTensor,
        DsV4AttnPersistError,
    >)
        requires
            old(self).wf(),
        ensures
            final(self).wf(),
            match read_raw_tensor(old(self)@, what) {
                Ok((t, rest)) => r is Ok && r->Ok_0@ == t && final(self)@ == rest,
                Err(e) => r == Err::<RawExpertTensor, _>(e) && final(self)@ == old(self)@.skip(
                    raw_header_read(old(self)@.len()),
                ),
            },
    {
        proof {
            reveal(read_raw_tensor);
        }
        let tensor_type: u32 = match self.read_u32(what) {
            Ok(v) => v,
            Err(e) => return Err(e),
        };
        let rows: u32 = match self.read_u32(what) {
            Ok(v) => v,
            Err(e) => return Err(e),
        };
        let cols: u32 = match self.read_u32(what) {
            Ok(v) => v,
            Err(e) => return Err(e),
        };
        let byte_len: u64 = match self.read_u64(what) {
            Ok(v) => v,
            Err(e) => return Err(e),
        };
        let part: &'a [u8] = match self.take(byte_len as usize, what) {
            Ok(s) => s,
            Err(e) => return Err(e),
        };
        let bytes: Vec<u8> = vstd::slice::slice_to_vec(part);
        assert(bytes@ =~= part@);
        Ok(RawExpertTensor { bytes, tensor_type, rows: rows as usize, cols: cols as usize })
    }

    /// The next vector of words.
    pub fn read_f32_vec(&mut self, what: &'static str) -> (r: Result<
        Vec<u32>,
        DsV4AttnPersistError,
    >)
        requires
            old(self).wf(),
        ensures
            final(self).wf(),
            match read_word_vec(old(self)@, what) {
                Ok((v, rest)) => r is Ok && r->Ok_0@ == v && final(self)@ == rest,
                Err(e) => r == Err::<Vec<u32>, _>(e) && final(self)@ == old(self)@.skip(
                    count_read(old(self)@.len()),
                ),
            },
    {
        proof {
            reveal(read_word_vec);
        }
        let n: usize = match self.read_u32(what) {
            Ok(v) => v as usize,
            Err(e) => return Err(e),
        };
        let size: usize = if n > usize::MAX / 4 {
            usize::MAX
        } else {
            n * 4
        };
        match self.take(size, what) {
            Ok(s) => Ok(read_words(s)),
            Err(e) => Err(e),
        }
    }
}

/// One layer's attention weights out of a blob.
pub fn deserialize_dsv4_attn(bytes: &[u8]) -> (r: Result<DsV4AttnWeights, DsV4AttnPersistError>)
    ensures
        match read_attn(bytes@) {
            Ok((w, _)) => r is Ok && r->Ok_0@ == w,
            Err(e) => r == Err::<DsV4AttnWeights, _>(e),
        },
{
    let mut c: Cursor = Cursor::new(bytes);
    let m: [u8; 4] = match c.take_array4("magic") {
        Ok(m) => m,
        Err(e) => return Err(e),
    };
    let expected: [u8; 4] = magic_bytes();
    if m[0] != expected[0] || m[1] != expected[1] || m[2] != expected[2] || m[3] != expected[3] {
        return Err(DsV4AttnPersistError::BadMagic(m));
    }
    assert(m@ =~= magic());
    let version: u16 = match c.read_u16("version") {
        Ok(v) => v,
        Err(e) => return Err(e),
    };
    if version != VERSION {
        return Err(DsV4AttnPersistError::UnsupportedVersion(version));
    }
    let q_a: RawExpertTensor = match c.read_raw("q_a") {
        Ok(t) => t,
        Err(e) => return Err(e),
    };
    let q_b: RawExpertTensor = match c.read_raw("q_b") {
        Ok(t) => t,
        Err(e) => return Err(e),
    };
    let kv_latent: RawExpertTensor = match c.read_raw("kv_latent") {
        Ok(t) => t,
        Err(e) => return Err(e),
    };
    let output_a: RawExpertTensor = match c.read_raw("output_a") {
        Ok(t) => t,
        Err(e) => return Err(e),
    };
    let output_b: RawExpertTensor = match c.read_raw("output_b") {
        Ok(t) => t,
        Err(e) => return Err(e),
    };
    let attn_norm: Vec<u32> = match c.read_f32_vec("attn_norm") {
        Ok(v) => v,
        Err(e) => return Err(e),
    };
    let q_a_norm: Vec<u32> = match c.read_f32_vec("q_a_norm") {
        Ok(v) => v,
        Err(e) => return Err(e),
    };
    let kv_a_norm: Vec<u32> = match c.read_f32_vec("kv_a_norm") {
        Ok(v) => v,
        Err(e) => return Err(e),
    };
    let flag: u8 = match c.read_u8("has_sinks") {
        Ok(v) => v,
        Err(e) => return Err(e),
    };
    let attn_sinks: Option<Vec<u32>> = if flag != 0 {
        match c.read_f32_vec("attn_sinks") {
            Ok(v) => Some(v),
            Err(e) => return Err(e),
        }
    } else {
        None
    };
    Ok(
        DsV4AttnWeights {
            q_a,
            q_b,
            kv_latent,
            output_a,
            output_b,
            attn_norm,
            q_a_norm,
            kv_a_norm,
            attn_sinks,
        },
    )
}

// ---- laws ------------------------------------------------------------------

/// The sizes of a raw tensor fit the fields that they are written in.
pub open spec fn raw_fits(t: RawTensorModel) -> bool {
    &&& t.rows < 0x1_0000_0000
    &&& t.cols < 0x1_0000_0000
    &&& t.bytes.len() <= usize::MAX
}

/// The length of a vector fits the field that it is written in, and the byte
/// size of its words fits a size.
pub open spec fn vec_fits(v: Seq<u32>) -> bool {
    v.len() < 0x1_0000_0000 && 4 * v.len() <= usize::MAX
}

/// Every size fits the field that it is written in.
pub open spec fn attn_fits(w: AttnModel) -> bool {
    &&& raw_fits(w.q_a)
    &&& raw_fits(w.q_b)
    &&& raw_fits(w.kv_latent)
    &&& raw_fits(w.output_a)
    &&& raw_fits(w.output_b)
    &&& vec_fits(w.attn_norm)
    &&& vec_fits(w.q_a_norm)
    &&& vec_fits(w.kv_a_norm)
    &&& w.attn_sinks matches Some(v) ==> vec_fits(v)
}

proof fn lemma_assoc(a: Seq<u8>, b: Seq<u8>, c: Seq<u8>)
    ensures
        (a + b) + c == a + (b + c),
{
    assert((a + b) + c =~= a + (b + c));
}

proof fn lemma_read_take(a: Seq<u8>, rest: Seq<u8>, what: &'static str)
    ensures
        read_take(a + rest, a.len(), what) == Ok::<(Seq<u8>, Seq<u8>), DsV4AttnPersistError>(
            (a, rest),
        ),
{
    assert((a + rest).take(a.len() as int) =~= a);
    assert((a + rest).skip(a.len() as int) =~= rest);
}

proof fn lemma_read_le(v: nat, n: nat, rest: Seq<u8>, what: &'static str)
    requires
        v < crate::words::pow256(n),
    ensures
        read_le(le_bytes(v, n) + rest, n, what) == Ok::<(nat, Seq<u8>), DsV4AttnPersistError>(
            (v, rest),
        ),
{
    lemma_le_bytes_len(v, n);
    lemma_le_value_of_bytes(v, n);
    lemma_read_take(le_bytes(v, n), rest, what);
}

proof fn lemma_read_raw(t: RawTensorModel, rest: Seq<u8>, what: &'static str)
    requires
        raw_fits(t),
    ensures
        read_raw_tensor(raw_bytes(t) + rest, what) == Ok::<
            (RawTensorModel, Seq<u8>),
            DsV4AttnPersistError,
        >((t, rest)),
{
    reveal(raw_bytes);
    reveal(read_raw_tensor);
    lemma_pow256_values();
    let r4 = t.bytes + rest;
    let b8 = le_bytes(t.bytes.len(), 8);
    let bc = le_bytes(low32(t.cols as nat), 4);
    let br = le_bytes(low32(t.rows as nat), 4);
    let bt = le_bytes(t.tensor_type as nat, 4);
    let r3 = b8 + r4;
    let r2 = bc + r3;
    let r1 = br + r2;
    assert(raw_bytes(t) + rest =~= bt + r1);
    lemma_read_le(t.tensor_type as nat, 4, r1, what);
    lemma_read_le(low32(t.rows as nat), 4, r2, what);
    lemma_read_le(low32(t.cols as nat), 4, r3, what);
    lemma_read_le(t.bytes.len(), 8, r4, what);
    lemma_read_take(t.bytes, rest, what);
}

proof fn lemma_read_vec(v: Seq<u32>, rest: Seq<u8>, what: &'static str)
    requires
        vec_fits(v),
    ensures
        read_word_vec(vec_bytes(v) + rest, what) == Ok::<(Seq<u32>, Seq<u8>), DsV4AttnPersistError>(
            (v, rest),
        ),
{
    reveal(vec_bytes);
    reveal(read_word_vec);
    lemma_pow256_values();
    lemma_word_bytes_len(v);
    lemma_words_of_word_bytes(v);
    let r1 = word_bytes(v) + rest;
    lemma_assoc(le_bytes(low32(v.len()), 4), word_bytes(v), rest);
    lemma_read_le(low32(v.len()), 4, r1, what);
    lemma_read_take(word_bytes(v), rest, what);
}

proof fn lemma_read_sinks(s: Option<Seq<u32>>, rest: Seq<u8>)
    requires
        s matches Some(v) ==> vec_fits(v),
    ensures
        read_sinks(sinks_bytes(s) + rest) == Ok::<
            (Option<Seq<u32>>, Seq<u8>),
            DsV4AttnPersistError,
        >((s, rest)),
{
    lemma_pow256_values();
    let flag: nat = if s is Some { 1 } else { 0 };
    let tail = match s {
        Some(v) => vec_bytes(v) + rest,
        None => rest,
    };
    reveal_with_fuel(le_bytes, 2);
    assert(le_bytes(flag, 1) =~= seq![flag as u8]);
    assert(sinks_bytes(s) + rest =~= le_bytes(flag, 1) + tail);
    lemma_read_le(flag, 1, tail, "has_sinks");
    if let Some(v) = s {
        lemma_read_vec(v, rest, "attn_sinks");
    }
}

/// The norms and the sinks as they stand in a blob.
spec fn norms_bytes(w: AttnModel) -> Seq<u8> {
    vec_bytes(w.attn_norm) + (vec_bytes(w.q_a_norm) + (vec_bytes(w.kv_a_norm) + sinks_bytes(
        w.attn_sinks,
    )))
}

spec fn body_bytes(w: AttnModel) -> Seq<u8> {
    raw_bytes(w.q_a) + (raw_bytes(w.q_b) + (raw_bytes(w.kv_latent) + (raw_bytes(w.output_a) + (
    raw_bytes(w.output_b) + norms_bytes(w)))))
}

proof fn lemma_read_norms(w: AttnModel, rest: Seq<u8>)
    requires
        attn_fits(w),
    ensures
        read_norms(norms_bytes(w) + rest) == Ok::<_, DsV4AttnPersistError>(
            ((w.attn_norm, w.q_a_norm, w.kv_a_norm, w.attn_sinks), rest),
        ),
{
    let r3 = sinks_bytes(w.attn_sinks) + rest;
    let r2 = vec_bytes(w.kv_a_norm) + r3;
    let r1 = vec_bytes(w.q_a_norm) + r2;
    assert(norms_bytes(w) + rest =~= vec_bytes(w.attn_norm) + r1);
    lemma_read_vec(w.attn_norm, r1, "attn_norm");
    lemma_read_vec(w.q_a_norm, r2, "q_a_norm");
    lemma_read_vec(w.kv_a_norm, r3, "kv_a_norm");
    lemma_read_sinks(w.attn_sinks, rest);
}

proof fn lemma_read_body(w: AttnModel, rest: Seq<u8>)
    requires
        attn_fits(w),
    ensures
        read_body(body_bytes(w) + rest) == Ok::<_, DsV4AttnPersistError>((w, rest)),
{
    let r5 = norms_bytes(w) + rest;
    let r4 = raw_bytes(w.output_b) + r5;
    let r3 = raw_bytes(w.output_a) + r4;
    let r2 = raw_bytes(w.kv_latent) + r3;
    let r1 = raw_bytes(w.q_b) + r2;
    let n = norms_bytes(w);
    let t4 = raw_bytes(w.output_b) + n;
    let t3 = raw_bytes(w.output_a) + t4;
    let t2 = raw_bytes(w.kv_latent) + t3;
    let t1 = raw_bytes(w.q_b) + t2;
    lemma_assoc(raw_bytes(w.q_a), t1, rest);
    lemma_assoc(raw_bytes(w.q_b), t2, rest);
    lemma_assoc(raw_bytes(w.kv_latent), t3, rest);
    lemma_assoc(raw_bytes(w.output_a), t4, rest);
    lemma_assoc(raw_bytes(w.output_b), n, rest);
    lemma_read_raw(w.q_a, r1, "q_a");
    lemma_read_raw(w.q_b, r2, "q_b");
    lemma_read_raw(w.kv_latent, r3, "kv_latent");
    lemma_read_raw(w.output_a, r4, "output_a");
    lemma_read_raw(w.output_b, r5, "output_b");
    lemma_read_norms(w, rest);
}

/// Weights survive a round trip through a blob, whatever bytes follow it.
pub proof fn law_round_trip(w: AttnModel, rest: Seq<u8>)
    requires
        attn_fits(w),
    ensures
        read_attn(attn_bytes(w) + rest) == Ok::<_, DsV4AttnPersistError>((w, rest)),
{
    lemma_pow256_values();
    let r1 = body_bytes(w) + rest;
    let r0 = le_bytes(VERSION as nat, 2) + r1;
    lemma_attn_bytes(w);
    lemma_assoc(magic(), le_bytes(VERSION as nat, 2) + body_bytes(w), rest);
    lemma_assoc(le_bytes(VERSION as nat, 2), body_bytes(w), rest);
    lemma_read_take(magic(), r0, "magic");
    lemma_read_le(VERSION as nat, 2, r1, "version");
    lemma_read_body(w, rest);
}

proof fn lemma_attn_bytes(w: AttnModel)
    ensures
        attn_bytes(w) == magic() + (le_bytes(VERSION as nat, 2) + body_bytes(w)),
{
}

// ---- cut blobs -------------------------------------------------------------

/// The read failed for want of bytes, and says so: fewer are there than it needs.
pub open spec fn cut<T>(r: Read<T>) -> bool {
    r matches Err(DsV4AttnPersistError::Truncated { what, need, have }) && have < need
}

proof fn lemma_cut_le(v: nat, n: nat, k: int, what: &'static str)
    requires
        0 <= k < n <= 8,
    ensures
        cut(read_le(le_bytes(v, n).take(k), n, what)),
{
    lemma_le_bytes_len(v, n);
}

/// What a prefix of two parts is: a prefix of the first, or the first and a
/// prefix of the second.
proof fn lemma_prefix_of_sum(a: Seq<u8>, b: Seq<u8>, k: int)
    requires
        0 <= k <= a.len() + b.len(),
    ensures
        k < a.len() ==> (a + b).take(k) == a.take(k),
        k >= a.len() ==> (a + b).take(k) == a + b.take(k - a.len()),
{
    if k < a.len() {
        assert((a + b).take(k) =~= a.take(k));
    } else {
        assert((a + b).take(k) =~= a + b.take(k - a.len()));
    }
}

proof fn lemma_cut_raw(t: RawTensorModel, k: int, what: &'static str)
    requires
        raw_fits(t),
        0 <= k < raw_bytes(t).len(),
    ensures
        cut(read_raw_tensor(raw_bytes(t).take(k), what)),
{
    reveal(raw_bytes);
    reveal(read_raw_tensor);
    lemma_pow256_values();
    let b8 = le_bytes(t.bytes.len(), 8);
    let bc = le_bytes(low32(t.cols as nat), 4);
    let br = le_bytes(low32(t.rows as nat), 4);
    let bt = le_bytes(t.tensor_type as nat, 4);
    lemma_le_bytes_len(t.bytes.len(), 8);
    lemma_le_bytes_len(low32(t.cols as nat), 4);
    lemma_le_bytes_len(low32(t.rows as nat), 4);
    lemma_le_bytes_len(t.tensor_type as nat, 4);
    let s3 = b8 + t.bytes;
    let s2 = bc + s3;
    let s1 = br + s2;
    lemma_prefix_of_sum(bt, s1, k);
    if k < 4 {
        lemma_cut_le(t.tensor_type as nat, 4, k, what);
    } else {
        lemma_read_le(t.tensor_type as nat, 4, s1.take(k - 4), what);
        lemma_prefix_of_sum(br, s2, k - 4);
        if k < 8 {
            lemma_cut_le(low32(t.rows as nat), 4, k - 4, what);
        } else {
            lemma_read_le(low32(t.rows as nat), 4, s2.take(k - 8), what);
            lemma_prefix_of_sum(bc, s3, k - 8);
            if k < 12 {
                lemma_cut_le(low32(t.cols as nat), 4, k - 8, what);
            } else {
                lemma_read_le(low32(t.cols as nat), 4, s3.take(k - 12), what);
                lemma_prefix_of_sum(b8, t.bytes, k - 12);
                if k < 20 {
                    lemma_cut_le(t.bytes.len(), 8, k - 12, what);
                } else {
                    lemma_read_le(t.bytes.len(), 8, t.bytes.take(k - 20), what);
                }
            }
        }
    }
}

proof fn lemma_cut_vec(v: Seq<u32>, k: int, what: &'static str)
    requires
        vec_fits(v),
        0 <= k < vec_bytes(v).len(),
    ensures
        cut(read_word_vec(vec_bytes(v).take(k), what)),
{
    reveal(vec_bytes);
    reveal(read_word_vec);
    lemma_pow256_values();
    lemma_word_bytes_len(v);
    lemma_le_bytes_len(low32(v.len()), 4);
    lemma_prefix_of_sum(le_bytes(low32(v.len()), 4), word_bytes(v), k);
    if k < 4 {
        lemma_cut_le(low32(v.len()), 4, k, what);
    } else {
        lemma_read_le(low32(v.len()), 4, word_bytes(v).take(k - 4), what);
    }
}

proof fn lemma_cut_sinks(s: Option<Seq<u32>>, k: int)
    requires
        s matches Some(v) ==> vec_fits(v),
        0 <= k < sinks_bytes(s).len(),
    ensures
        cut(read_sinks(sinks_bytes(s).take(k))),
{
    lemma_pow256_values();
    if k > 0 {
        let v = s->Some_0;
        reveal_with_fuel(le_bytes, 2);
        assert(le_bytes(1, 1) =~= seq![1u8]);
        lemma_prefix_of_sum(seq![1u8], vec_bytes(v), k);
        lemma_read_le(1, 1, vec_bytes(v).take(k - 1), "has_sinks");
        lemma_cut_vec(v, k - 1, "attn_sinks");
    }
}

proof fn lemma_cut_norms(w: AttnModel, k: int)
    requires
        attn_fits(w),
        0 <= k < norms_bytes(w).len(),
    ensures
        cut(read_norms(norms_bytes(w).take(k))),
{
    let a = vec_bytes(w.attn_norm);
    let b = vec_bytes(w.q_a_norm);
    let c = vec_bytes(w.kv_a_norm);
    let d = sinks_bytes(w.attn_sinks);
    lemma_prefix_of_sum(a, b + (c + d), k);
    if k < a.len() {
        lemma_cut_vec(w.attn_norm, k, "attn_norm");
    } else {
        let k1 = k - a.len();
        lemma_read_vec(w.attn_norm, (b + (c + d)).take(k1), "attn_norm");
        lemma_prefix_of_sum(b, c + d, k1);
        if k1 < b.len() {
            lemma_cut_vec(w.q_a_norm, k1, "q_a_norm");
        } else {
            let k2 = k1 - b.len();
            lemma_read_vec(w.q_a_norm, (c + d).take(k2), "q_a_norm");
            lemma_prefix_of_sum(c, d, k2);
            if k2 < c.len() {
                lemma_cut_vec(w.kv_a_norm, k2, "kv_a_norm");
            } else {
                lemma_read_vec(w.kv_a_norm, d.take(k2 - c.len()), "kv_a_norm");
                lemma_cut_sinks(w.attn_sinks, k2 - c.len());
            }
        }
    }
}

proof fn lemma_cut_body(w: AttnModel, k: int)
    requires
        attn_fits(w),
        0 <= k < body_bytes(w).len(),
    ensures
        cut(read_body(body_bytes(w).take(k))),
{
    let a = raw_bytes(w.q_a);
    let b = raw_bytes(w.q_b);
    let c = raw_bytes(w.kv_latent);
    let d = raw_bytes(w.output_a);
    let e = raw_bytes(w.output_b);
    let n = norms_bytes(w);
    let t4 = e + n;
    let t3 = d + t4;
    let t2 = c + t3;
    let t1 = b + t2;
    lemma_prefix_of_sum(a, t1, k);
    if k < a.len() {
        lemma_cut_raw(w.q_a, k, "q_a");
    } else {
        let k1 = k - a.len();
        lemma_read_raw(w.q_a, t1.take(k1), "q_a");
        lemma_prefix_of_sum(b, t2, k1);
        if k1 < b.len() {
            lemma_cut_raw(w.q_b, k1, "q_b");
        } else {
            let k2 = k1 - b.len();
            lemma_read_raw(w.q_b, t2.take(k2), "q_b");
            lemma_prefix_of_sum(c, t3, k2);
            if k2 < c.len() {
                lemma_cut_raw(w.kv_latent, k2, "kv_latent");
            } else {
                let k3 = k2 - c.len();
                lemma_read_raw(w.kv_latent, t3.take(k3), "kv_latent");
                lemma_prefix_of_sum(d, t4, k3);
                if k3 < d.len() {
                    lemma_cut_raw(w.output_a, k3, "output_a");
                } else {
                    let k4 = k3 - d.len();
                    lemma_read_raw(w.output_a, t4.take(k4), "output_a");
                    lemma_prefix_of_sum(e, n, k4);
                    if k4 < e.len() {
                        lemma_cut_raw(w.output_b, k4, "output_b");
                    } else {
                        lemma_read_raw(w.output_b, n.take(k4 - e.len()), "output_b");
                        lemma_cut_norms(w, k4 - e.len());
                    }
                }
            }
        }
    }
}

/// A blob that was cut short anywhere is refused as truncated, with fewer bytes
/// there than were needed.
pub proof fn law_cut_blob_is_refused(w: AttnModel, k: int)
    requires
        attn_fits(w),
        0 <= k < attn_bytes(w).len(),
    ensures
        cut(read_attn(attn_bytes(w).take(k))),
{
    lemma_pow256_values();
    lemma_attn_bytes(w);
    let body = body_bytes(w);
    let ver = le_bytes(VERSION as nat, 2);
    lemma_le_bytes_len(VERSION as nat, 2);
    lemma_prefix_of_sum(magic(), ver + body, k);
    if k >= 4 {
        lemma_read_take(magic(), (ver + body).take(k - 4), "magic");
        lemma_prefix_of_sum(ver, body, k - 4);
        if k < 6 {
            lemma_cut_le(VERSION as nat, 2, k - 4, "version");
        } else {
            lemma_read_le(VERSION as nat, 2, body.take(k - 6), "version");
            lemma_cut_body(w, k - 6);
        }
    }
}

// ---- other blobs -----------------------------------------------------------

/// A blob that starts with four bytes other than the magic is refused with
/// those bytes.
pub proof fn law_wrong_magic_is_refused(s: Seq<u8>)
    requires
        s.len() >= 4,
        s.take(4) != magic(),
    ensures
        read_attn(s) == Err::<(AttnModel, Seq<u8>), _>(
            DsV4AttnPersistError::BadMagic([s[0], s[1], s[2], s[3]]),
        ),
{
}

/// A blob of another version is refused with that version.
pub proof fn law_wrong_version_is_refused(version: u16, body: Seq<u8>)
    requires
        version != VERSION,
    ensures
        read_attn(magic() + le_bytes(version as nat, 2) + body) == Err::<(AttnModel, Seq<u8>), _>(
            DsV4AttnPersistError::UnsupportedVersion(version),
        ),
{
    lemma_pow256_values();
    assert(magic() + le_bytes(version as nat, 2) + body =~= magic() + (le_bytes(version as nat, 2)
        + body));
    lemma_read_take(magic(), le_bytes(version as nat, 2) + body, "magic");
    lemma_read_le(version as nat, 2, body, "version");
}

/// How a stored tensor is laid out: its type, its rows, its columns and the number of
/// its bytes, in four, four, four and eight bytes, and then the bytes.
pub proof fn law_tensor_layout(t: RawTensorModel)
    requires
        t.bytes.len() <= u64::MAX,
    ensures
        raw_bytes(t).len() == 20 + t.bytes.len(),
        le_value(raw_bytes(t).subrange(0, 4)) == t.tensor_type,
        le_value(raw_bytes(t).subrange(4, 8)) == t.rows as nat % 0x1_0000_0000,
        le_value(raw_bytes(t).subrange(8, 12)) == t.cols as nat % 0x1_0000_0000,
        le_value(raw_bytes(t).subrange(12, 20)) == t.bytes.len(),
        raw_bytes(t).skip(20) == t.bytes,
{
    reveal(raw_bytes);
    lemma_pow256_values();
    lemma_le_bytes_len(t.tensor_type as nat, 4);
    lemma_le_bytes_len(low32(t.rows as nat), 4);
    lemma_le_bytes_len(low32(t.cols as nat), 4);
    lemma_le_bytes_len(t.bytes.len(), 8);
    lemma_five_parts(
        le_bytes(t.tensor_type as nat, 4),
        le_bytes(low32(t.rows as nat), 4),
        le_bytes(low32(t.cols as nat), 4),
        le_bytes(t.bytes.len(), 8),
        t.bytes,
    );
    lemma_le_value_of_bytes(t.tensor_type as nat, 4);
    lemma_le_value_of_bytes(low32(t.rows as nat), 4);
    lemma_le_value_of_bytes(low32(t.cols as nat), 4);
    lemma_le_value_of_bytes(t.bytes.len(), 8);
}

proof fn lemma_five_parts(a: Seq<u8>, b: Seq<u8>, c: Seq<u8>, d: Seq<u8>, e: Seq<u8>)
    requires
        a.len() == 4 && b.len() == 4 && c.len() == 4 && d.len() == 8,
    ensures
        (a + (b + (c + (d + e)))).subrange(0, 4) == a,
        (a + (b + (c + (d + e)))).subrange(4, 8) == b,
        (a + (b + (c + (d + e)))).subrange(8, 12) == c,
        (a + (b + (c + (d + e)))).subrange(12, 20) == d,
        (a + (b + (c + (d + e)))).skip(20) == e,
{
    let s = a + (b + (c + (d + e)));
    assert(s.subrange(0, 4) =~= a);
    assert(s.subrange(4, 8) =~= b);
    assert(s.subrange(8, 12) =~= c);
    assert(s.subrange(12, 20) =~= d);
    assert(s.skip(20) =~= e);
}

proof fn lemma_two_parts(a: Seq<u8>, b: Seq<u8>, i: int)
    requires
        a.len() == 4,
    ensures
        (a + b).subrange(0, 4) == a,
        0 <= i && 4 * i + 4 <= b.len() ==> (a + b).subrange(4 + 4 * i, 8 + 4 * i) == b.subrange(
            4 * i,
            4 * i + 4,
        ),
{
    assert((a + b).subrange(0, 4) =~= a);
    if 0 <= i && 4 * i + 4 <= b.len() {
        assert((a + b).subrange(4 + 4 * i, 8 + 4 * i) =~= b.subrange(4 * i, 4 * i + 4));
    }
}

/// How a stored vector is laid out: the number of its words in four bytes, and then
/// the words, four bytes each.
pub proof fn law_vector_layout(v: Seq<u32>, i: int)
    ensures
        vec_bytes(v).len() == 4 + 4 * v.len(),
        le_value(vec_bytes(v).subrange(0, 4)) == v.len() % 0x1_0000_0000,
        0 <= i < v.len() ==> le_value(vec_bytes(v).subrange(4 + 4 * i, 8 + 4 * i)) == v[i],
{
    reveal(vec_bytes);
    lemma_pow256_values();
    lemma_le_bytes_len(low32(v.len()), 4);
    lemma_word_bytes_len(v);
    lemma_two_parts(le_bytes(low32(v.len()), 4), word_bytes(v), i);
    lemma_le_value_of_bytes(low32(v.len()), 4);
    if 0 <= i < v.len() {
        lemma_word_bytes_at(v, i);
        lemma_le_value_of_bytes(v[i] as nat, 4);
    }
}

/// How the weights of an attention block are laid out: the letters `D4VA`, version one
/// in two bytes, the five matrices and the three norms in this order, and at the end
/// the sinks: one zero byte where there are none, else a byte one and a vector.
pub proof fn law_blob_layout(w: AttnModel)
    ensures
        attn_bytes(w) == seq![0x44u8, 0x34u8, 0x56u8, 0x41u8, 1u8, 0u8] + raw_bytes(w.q_a)
            + raw_bytes(w.q_b) + raw_bytes(w.kv_latent) + raw_bytes(w.output_a) + raw_bytes(
            w.output_b,
        ) + vec_bytes(w.attn_norm) + vec_bytes(w.q_a_norm) + vec_bytes(w.kv_a_norm) + sinks_bytes(
            w.attn_sinks,
        ),
        w.attn_sinks is None ==> sinks_bytes(w.attn_sinks) == seq![0u8],
        w.attn_sinks matches Some(v) ==> sinks_bytes(w.attn_sinks) == seq![1u8] + vec_bytes(v),
{
    law_low_byte_comes_first(1, 2);
    assert(le_bytes(1, 2) =~= seq![1u8, 0u8]);
    assert(attn_bytes(w) =~= seq![0x44u8, 0x34u8, 0x56u8, 0x41u8, 1u8, 0u8] + raw_bytes(w.q_a)
        + raw_bytes(w.q_b) + raw_bytes(w.kv_latent) + raw_bytes(w.output_a) + raw_bytes(w.output_b)
        + vec_bytes(w.attn_norm) + vec_bytes(w.q_a_norm) + vec_bytes(w.kv_a_norm) + sinks_bytes(
        w.attn_sinks,
    ));
}

/// Taking bytes: the first ones are handed out and the rest is left, as long as there
/// are as many; else nothing is taken, and the error names what was read, how many
/// bytes were needed and how many were there.
pub proof fn law_taking_bytes(s: Seq<u8>, n: nat, what: &'static str)
    requires
        s.len() <= usize::MAX,
        n <= usize::MAX,
    ensures
        n <= s.len() ==> (read_take(s, n, what) matches Ok((b, rest)) && b + rest == s && b.len()
            == n),
        n > s.len() ==> (read_take(s, n, what) matches Err(DsV4AttnPersistError::Truncated {
            what: w,
            need,
            have,
        }) && w == what && need == n && have == s.len()),
{
    if n <= s.len() {
        assert(s.take(n as int) + s.skip(n as int) =~= s);
    }
}

/// What the errors of reading weights say.
pub proof fn law_persist_error_texts(m: [u8; 4], v: u16, what: &'static str, need: usize, have: usize)
    ensures
        DsV4AttnPersistError::BadMagic(m).message_text() == "bad magic ["@ + decimal_list(
            m@.map_values(|b: u8| b as u64),
        ) + "] (expected ["@ + decimal_list(
            seq![0x44u8, 0x34u8, 0x56u8, 0x41u8].map_values(|b: u8| b as u64),
        ) + "])"@,
        DsV4AttnPersistError::UnsupportedVersion(v).message_text() == "unsupported version "@
            + decimal(v as nat),
        (DsV4AttnPersistError::Truncated { what, need, have }).message_text()
            == "truncated reading "@ + what@ + ": need "@ + decimal(need as nat) + ", have "@
            + decimal(have as nat),
{
    assert(widened(m@) =~= m@.map_values(|b: u8| b as u64));
    assert(widened(magic()) =~= seq![0x44u8, 0x34u8, 0x56u8, 0x41u8].map_values(|b: u8| b as u64));
}

/// A tensor or a vector that is cut short is reported under the name that it was read
/// as.
pub proof fn law_cut_parts_keep_their_name(s: Seq<u8>, what: &'static str)
    ensures
        read_raw_tensor(s, what) matches Err(e) ==> (e matches DsV4AttnPersistError::Truncated {
            what: w,
            need,
            have,
        } && w == what),
        read_word_vec(s, what) matches Err(e) ==> (e matches DsV4AttnPersistError::Truncated {
            what: w,
            need,
            have,
        } && w == what),
{
    reveal(read_raw_tensor);
    reveal(read_word_vec);
}

/// The parts of some weights are read in their order, each under its own name, and the
/// first one that is cut short is reported.
pub proof fn law_parts_are_read_in_order(s: Seq<u8>)
    ensures
        match read_body(s) {
            Ok((w, rest)) => exists|r: Seq<Seq<u8>>|
                {
                    &&& (#[trigger] r.len()) == 9
                    &&& read_raw_tensor(s, "q_a") == Ok::<_, DsV4AttnPersistError>((w.q_a, r[0]))
                    &&& read_raw_tensor(r[0], "q_b") == Ok::<_, DsV4AttnPersistError>(
                        (w.q_b, r[1]),
                    )
                    &&& read_raw_tensor(r[1], "kv_latent") == Ok::<_, DsV4AttnPersistError>(
                        (w.kv_latent, r[2]),
                    )
                    &&& read_raw_tensor(r[2], "output_a") == Ok::<_, DsV4AttnPersistError>(
                        (w.output_a, r[3]),
                    )
                    &&& read_raw_tensor(r[3], "output_b") == Ok::<_, DsV4AttnPersistError>(
                        (w.output_b, r[4]),
                    )
                    &&& read_word_vec(r[4], "attn_norm") == Ok::<_, DsV4AttnPersistError>(
                        (w.attn_norm, r[5]),
                    )
                    &&& read_word_vec(r[5], "q_a_norm") == Ok::<_, DsV4AttnPersistError>(
                        (w.q_a_norm, r[6]),
                    )
                    &&& read_word_vec(r[6], "kv_a_norm") == Ok::<_, DsV4AttnPersistError>(
                        (w.kv_a_norm, r[7]),
                    )
                    &&& read_sinks(r[7]) == Ok::<_, DsV4AttnPersistError>((w.attn_sinks, rest))
                    &&& r[8] == rest
                },
            Err(e) => {
                let q_a = read_raw_tensor(s, "q_a");
                let q_b = read_raw_tensor(q_a->Ok_0.1, "q_b");
                let kv = read_raw_tensor(q_b->Ok_0.1, "kv_latent");
                let out_a = read_raw_tensor(kv->Ok_0.1, "output_a");
                let out_b = read_raw_tensor(out_a->Ok_0.1, "output_b");
                let norm = read_word_vec(out_b->Ok_0.1, "attn_norm");
                let q_norm = read_word_vec(norm->Ok_0.1, "q_a_norm");
                let kv_norm = read_word_vec(q_norm->Ok_0.1, "kv_a_norm");
                let sinks = read_sinks(kv_norm->Ok_0.1);
                if q_a is Err {
                    e == q_a->Err_0
                } else if q_b is Err {
                    e == q_b->Err_0
                } else if kv is Err {
                    e == kv->Err_0
                } else if out_a is Err {
                    e == out_a->Err_0
                } else if out_b is Err {
                    e == out_b->Err_0
                } else if norm is Err {
                    e == norm->Err_0
                } else if q_norm is Err {
                    e == q_norm->Err_0
                } else if kv_norm is Err {
                    e == kv_norm->Err_0
                } else {
                    sinks is Err && e == sinks->Err_0
                }
            },
        },
{
    if let Ok((w, rest)) = read_body(s) {
        let r0 = read_raw_tensor(s, "q_a")->Ok_0.1;
        let r1 = read_raw_tensor(r0, "q_b")->Ok_0.1;
        let r2 = read_raw_tensor(r1, "kv_latent")->Ok_0.1;
        let r3 = read_raw_tensor(r2, "output_a")->Ok_0.1;
        let r4 = read_raw_tensor(r3, "output_b")->Ok_0.1;
        let r5 = read_word_vec(r4, "attn_norm")->Ok_0.1;
        let r6 = read_word_vec(r5, "q_a_norm")->Ok_0.1;
        let r7 = read_word_vec(r6, "kv_a_norm")->Ok_0.1;
        let r = seq![r0, r1, r2, r3, r4, r5, r6, r7, rest];
        assert(r.len() == 9);
    }
}

/// Sinks: a zero byte stands for none, any other is followed by a vector.
pub proof fn law_sinks_are_read_by_their_flag(s: Seq<u8>)
    requires
        s.len() > 0,
    ensures
        s[0] == 0 ==> read_sinks(s) == Ok::<(Option<Seq<u32>>, Seq<u8>), DsV4AttnPersistError>(
            (None, s.skip(1)),
        ),
        s[0] != 0 ==> match read_word_vec(s.skip(1), "attn_sinks") {
            Ok((v, rest)) => read_sinks(s) == Ok::<_, DsV4AttnPersistError>((Some(v), rest)),
            Err(e) => read_sinks(s) == Err::<(Option<Seq<u32>>, Seq<u8>), _>(e),
        },
{
    law_worth_of_bytes(s.take(1));
    assert(s.take(1)[0] == s[0]);
}

/// Where a reader stands after a tensor that was cut short: behind the last number of
/// its head that could be read whole; and after a vector behind its count, if that
/// could be read.
pub proof fn law_reader_stands_behind_whole_numbers(len: nat)
    ensures
        raw_header_read(len) <= len || len < 4,
        raw_header_read(len) == 0 <==> len < 4,
        raw_header_read(len) == 4 <==> 4 <= len < 8,
        raw_header_read(len) == 8 <==> 8 <= len < 12,
        raw_header_read(len) == 12 <==> 12 <= len < 20,
        raw_header_read(len) == 20 <==> 20 <= len,
        count_read(len) == 0 <==> len < 4,
        count_read(len) == 4 <==> 4 <= len,
{
}

} // verus!
