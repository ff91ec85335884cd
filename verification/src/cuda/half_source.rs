//! Half-precision weights as they stand in a file.
use vstd::prelude::*;
use vstd::string::*;
use crate::cuda::error::CudaInitError;
use crate::text::{decimal, decimal_text};
use crate::words::{le_value, lemma_le_bytes_of_value, lemma_pow256_values, value_le};

verus! {

/// The text of the refusal of bytes that are too short.
pub open spec fn short_source_text(got: nat, need: nat) -> Seq<char> {
    "f16 source bytes too short: got "@ + decimal(got) + ", need "@ + decimal(need)
}

/// The first `n` half-precision words of some bytes, least significant byte
/// first.
pub open spec fn half_words_of(bytes: Seq<u8>, n: nat) -> Seq<u16> {
    Seq::new(n, |i: int| le_value(bytes.subrange(2 * i, 2 * i + 2)) as u16)
}

/// Reads the first `n` half-precision words of some bytes. Bytes behind them are
/// not read.
pub fn half_words(bytes: &[u8], n: usize) -> (r: Result<Vec<u16>, CudaInitError>)
    requires
        n * 2 <= usize::MAX,
    ensures
        if bytes@.len() < n * 2 {
            r matches Err(CudaInitError::DriverMissing(t)) && t@ == short_source_text(
                bytes@.len(),
                (n * 2) as nat,
            )
        } else {
            r matches Ok(w) && w@ == half_words_of(bytes@, n as nat)
        },
{
    let need: usize = n * 2;
    if bytes.len() < need {
        let mut t: String = String::from_str("f16 source bytes too short: got ");
        t.append(decimal_text(bytes.len() as u64).as_str());
        t.append(", need ");
        t.append(decimal_text(need as u64).as_str());
        return Err(CudaInitError::DriverMissing(t));
    }
    let mut w: Vec<u16> = Vec::new();
    let mut i: usize = 0;
    while i < n
        invariant
            i <= n,
            n * 2 <= bytes@.len(),
            n * 2 <= usize::MAX,
            w@ == half_words_of(bytes@, i as nat),
        decreases n - i,
    {
        let part: &[u8] = vstd::slice::slice_subrange(bytes, 2 * i, 2 * i + 2);
        let v: u64 = value_le(part);
        proof {
            lemma_le_bytes_of_value(part@);
            lemma_pow256_values();
        }
        w.push(v as u16);
        i = i + 1;
        assert(w@ =~= half_words_of(bytes@, i as nat));
    }
    Ok(w)
}

/// Half-precision word `i` is worth its bytes `2 * i` and `2 * i + 1`, the low byte
/// first.
pub proof fn law_half_word_of_bytes(bytes: Seq<u8>, n: nat, i: int)
    requires
        2 * n <= bytes.len(),
        0 <= i < n,
    ensures
        half_words_of(bytes, n).len() == n,
        half_words_of(bytes, n)[i] == bytes[2 * i] + 256 * bytes[2 * i + 1],
{
    let part = bytes.subrange(2 * i, 2 * i + 2);
    crate::words::law_worth_of_bytes(part);
    assert(part[0] == bytes[2 * i] && part[1] == bytes[2 * i + 1]);
}

} // verus!
