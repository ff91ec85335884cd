# larql

The integer core of an inference engine for hybrid (gated linear attention and
softmax attention) and latent-attention language models, verified with Verus.

Floating-point values are carried as bit patterns. The library decides, checks,
lays out, orders and routes them, and keeps the caches; the arithmetic on them is
done by kernels that the caller brings.

## Layout

- `src/attention/` model files and manifests, weight storage, caches, sampling
  and generation, routed experts, and the forward passes. A block of one token is a
  list of operations (`block_program`), a pass a chain of blocks (`layer_program`);
  the library runs them with the caller's kernels, and laws say that running one
  computes its formula, whatever the kernels mean.
- `src/backend/`, `src/cpu.rs`, `src/cuda/` what backends can do, decoding
  without committing, launch shapes, buffer sizes and checks before device calls.
- `src/engines/` synthetic models for tests.
- `src/tensor.rs` arrays of words over `ndarray`; `src/keyed.rs` tables by name;
  `src/words.rs`, `src/text.rs`, `src/fbits.rs` bytes, decimal texts and the order
  of bit patterns.
- `app/` the ordinary Rust around the library: files, the device, floating-point
  kernels, random draws.
- `tests/` runs the library, with small floating-point kernels where it asks for
  some.

## What is trusted

The contracts of the functions marked `external_body`: those of `tensor.rs` on
`ndarray`'s arrays, `tokenizer_from_bytes` on the `tokenizers` crate, and
`quoted_text` on the standard library's quoting of texts. Each says in its doc
comment which outside function it calls and what it claims.
