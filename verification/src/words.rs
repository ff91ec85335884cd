//! Little-endian words: what a run of bytes is worth and how a number is
//! written as bytes.
use vstd::prelude::*;

verus! {

/// `256^n`: how many values `n` bytes can take.
pub open spec fn pow256(n: nat) -> nat
    decreases n,
{
    if n == 0 {
        1
    } else {
        256 * pow256((n - 1) as nat)
    }
}

/// The `n` low bytes of `v`, least significant first.
pub open spec fn le_bytes(v: nat, n: nat) -> Seq<u8>
    decreases n,
{
    if n == 0 {
        Seq::empty()
    } else {
        seq![(v % 256) as u8] + le_bytes(v / 256, (n - 1) as nat)
    }
}

/// The number that a run of bytes stands for, least significant byte first.
pub open spec fn le_value(s: Seq<u8>) -> nat
    decreases s.len(),
{
    if s.len() == 0 {
        0
    } else {
        s[0] as nat + 256 * le_value(s.skip(1))
    }
}

/// The words of `s`, four little-endian bytes each.
pub open spec fn word_bytes(s: Seq<u32>) -> Seq<u8>
    decreases s.len(),
{
    if s.len() == 0 {
        Seq::empty()
    } else {
        word_bytes(s.drop_last()) + le_bytes(s.last() as nat, 4)
    }
}

/// The 32-bit words that a run of bytes holds; a remainder of less than four
/// bytes is not read.
pub open spec fn words_of(s: Seq<u8>) -> Seq<u32> {
    Seq::new(s.len() / 4, |i: int| le_value(s.subrange(4 * i, 4 * i + 4)) as u32)
}

pub proof fn lemma_pow256_values()
    ensures
        pow256(1) == 256,
        pow256(2) == 0x1_0000,
        pow256(4) == 0x1_0000_0000,
        pow256(8) == 0x1_0000_0000_0000_0000,
{
    reveal_with_fuel(pow256, 9);
}

pub proof fn lemma_pow256_mono(a: nat, b: nat)
    requires
        a <= b,
    ensures
        1 <= pow256(a) <= pow256(b),
    decreases b,
{
    if b > 0 {
        if a == b {
            lemma_pow256_mono((a - 1) as nat, (b - 1) as nat);
        } else {
            lemma_pow256_mono(a, (b - 1) as nat);
        }
    }
}

pub proof fn lemma_le_bytes_len(v: nat, n: nat)
    ensures
        le_bytes(v, n).len() == n,
    decreases n,
{
    if n > 0 {
        lemma_le_bytes_len(v / 256, (n - 1) as nat);
    }
}

/// Reading back what was written gives the number, as long as it fits.
pub proof fn lemma_le_value_of_bytes(v: nat, n: nat)
    requires
        v < pow256(n),
    ensures
        le_value(le_bytes(v, n)) == v,
    decreases n,
{
    lemma_le_bytes_len(v, n);
    if n > 0 {
        let m = (n - 1) as nat;
        lemma_le_bytes_len(v / 256, m);
        assert(v / 256 < pow256(m)) by (nonlinear_arith)
            requires
                v < 256 * pow256(m),
        ;
        lemma_le_value_of_bytes(v / 256, m);
        assert(le_bytes(v, n).skip(1) =~= le_bytes(v / 256, m));
    }
}

/// A run of bytes is what its value is written as in the same number of bytes.
pub proof fn lemma_le_bytes_of_value(s: Seq<u8>)
    ensures
        le_value(s) < pow256(s.len()),
        le_bytes(le_value(s), s.len()) == s,
    decreases s.len(),
{
    if s.len() > 0 {
        let t = s.skip(1);
        lemma_le_bytes_of_value(t);
        assert((s[0] as nat + 256 * le_value(t)) / 256 == le_value(t));
        assert((s[0] as nat + 256 * le_value(t)) % 256 == s[0] as nat);
        assert(le_bytes(le_value(s), s.len()) =~= s);
    } else {
        assert(le_bytes(le_value(s), s.len()) =~= s);
    }
}

pub proof fn lemma_word_bytes_len(s: Seq<u32>)
    ensures
        word_bytes(s).len() == 4 * s.len(),
    decreases s.len(),
{
    if s.len() > 0 {
        lemma_word_bytes_len(s.drop_last());
        lemma_le_bytes_len(s.last() as nat, 4);
    }
}

/// The `i`-th group of four bytes of written words is the `i`-th word.
pub proof fn lemma_word_bytes_at(s: Seq<u32>, i: int)
    requires
        0 <= i < s.len(),
    ensures
        word_bytes(s).subrange(4 * i, 4 * i + 4) == le_bytes(s[i] as nat, 4),
    decreases s.len(),
{
    let head = s.drop_last();
    lemma_word_bytes_len(s);
    lemma_word_bytes_len(head);
    lemma_le_bytes_len(s.last() as nat, 4);
    if i == s.len() - 1 {
        assert(word_bytes(s).subrange(4 * i, 4 * i + 4) =~= le_bytes(s[i] as nat, 4));
    } else {
        lemma_word_bytes_at(head, i);
        assert(word_bytes(s).subrange(4 * i, 4 * i + 4) =~= word_bytes(head).subrange(
            4 * i,
            4 * i + 4,
        ));
    }
}

/// Words survive being written and read back.
pub proof fn lemma_words_of_word_bytes(s: Seq<u32>)
    ensures
        words_of(word_bytes(s)) == s,
{
    lemma_word_bytes_len(s);
    lemma_pow256_values();
    assert forall|i: int| 0 <= i < s.len() implies words_of(word_bytes(s))[i] == s[i] by {
        lemma_word_bytes_at(s, i);
        lemma_le_value_of_bytes(s[i] as nat, 4);
    }
    assert(words_of(word_bytes(s)) =~= s);
}

/// Bytes survive being read as words and written back, when they are a whole
/// number of words.
pub proof fn law_bytes_come_back_from_their_words(s: Seq<u8>)
    requires
        s.len() % 4 == 0,
    ensures
        word_bytes(words_of(s)) == s,
    decreases s.len(),
{
    lemma_pow256_values();
    let w = words_of(s);
    lemma_word_bytes_len(w);
    if s.len() > 0 {
        let k = s.len() - 4;
        let head = s.take(k);
        let tail = s.skip(k);
        law_bytes_come_back_from_their_words(head);
        assert forall|i: int| 0 <= i < head.len() / 4 implies words_of(head)[i] == w[i] by {
            assert(head.subrange(4 * i, 4 * i + 4) =~= s.subrange(4 * i, 4 * i + 4));
        }
        assert(w.drop_last() =~= words_of(head));
        assert(s.subrange(4 * (w.len() - 1), 4 * (w.len() - 1) + 4) =~= tail);
        lemma_le_bytes_of_value(tail);
        assert(w.last() as nat == le_value(tail));
        assert(word_bytes(w) =~= head + tail);
        assert(head + tail =~= s);
    } else {
        assert(word_bytes(w) =~= s);
    }
}

/// Appends the `n` low bytes of `v`, least significant first.
pub fn push_le(out: &mut Vec<u8>, v: u64, n: usize)
    ensures
        final(out)@ == old(out)@ + le_bytes(v as nat, n as nat),
{
    let mut i: usize = 0;
    let mut rest: u64 = v;
    assert(out@ + le_bytes(rest as nat, n as nat) =~= old(out)@ + le_bytes(v as nat, n as nat));
    while i < n
        invariant
            i <= n,
            out@ + le_bytes(rest as nat, (n - i) as nat) == old(out)@ + le_bytes(
                v as nat,
                n as nat,
            ),
        decreases n - i,
    {
        let ghost before = out@;
        let ghost tail = le_bytes((rest / 256) as nat, (n - i - 1) as nat);
        assert(le_bytes(rest as nat, (n - i) as nat) == seq![(rest % 256) as u8] + tail);
        out.push((rest % 256) as u8);
        assert(out@ + tail =~= before + (seq![(rest % 256) as u8] + tail));
        rest = rest / 256;
        i += 1;
    }
    assert(out@ + le_bytes(rest as nat, 0) =~= out@);
}

/// What up to eight bytes are worth.
pub fn value_le(s: &[u8]) -> (v: u64)
    requires
        s@.len() <= 8,
    ensures
        v as nat == le_value(s@),
{
    let n: usize = s.len();
    let mut i: usize = n;
    let mut v: u64 = 0;
    assert(s@.skip(n as int) =~= Seq::<u8>::empty());
    while i > 0
        invariant
            i <= n,
            n == s@.len(),
            n <= 8,
            v as nat == le_value(s@.skip(i as int)),
        decreases i,
    {
        let ghost tail = s@.skip(i as int);
        proof {
            lemma_pow256_values();
            lemma_le_bytes_of_value(tail);
            lemma_pow256_mono(tail.len(), 7);
            reveal_with_fuel(pow256, 9);
        }
        i -= 1;
        assert(s@.skip(i as int).skip(1) =~= tail);
        assert(v < 0x100_0000_0000_0000);
        v = v * 256 + s[i] as u64;
    }
    assert(s@.skip(0) =~= s@);
    v
}

/// Appends the words, four little-endian bytes each.
pub fn push_words(out: &mut Vec<u8>, words: &[u32])
    ensures
        final(out)@ == old(out)@ + word_bytes(words@),
{
    let mut i: usize = 0;
    let ghost before = out@;
    assert(words@.take(0) =~= Seq::<u32>::empty());
    assert(out@ =~= before + word_bytes(words@.take(0)));
    while i < words.len()
        invariant
            i <= words@.len(),
            out@ == before + word_bytes(words@.take(i as int)),
        decreases words@.len() - i,
    {
        let ghost so_far = words@.take(i as int);
        let ghost next = words@.take(i + 1);
        assert(next.drop_last() =~= so_far);
        push_le(out, words[i] as u64, 4);
        assert(out@ =~= before + word_bytes(next));
        i += 1;
    }
    assert(words@.take(i as int) =~= words@);
}

/// The words that the bytes hold.
pub fn read_words(s: &[u8]) -> (w: Vec<u32>)
    ensures
        w@ == words_of(s@),
{
    let total: usize = s.len();
    let n: usize = total / 4;
    let mut w: Vec<u32> = Vec::new();
    let mut i: usize = 0;
    while i < n
        invariant
            i <= n,
            n == total / 4,
            total == s@.len(),
            w@ == words_of(s@).take(i as int),
        decreases n - i,
    {
        let part: &[u8] = vstd::slice::slice_subrange(s, 4 * i, 4 * i + 4);
        let v: u64 = value_le(part);
        proof {
            lemma_le_bytes_of_value(part@);
            lemma_pow256_values();
        }
        w.push(v as u32);
        i += 1;
        assert(w@ =~= words_of(s@).take(i as int));
    }
    assert(words_of(s@).take(n as int) =~= words_of(s@));
    w
}

/// The contents of some rows.
pub open spec fn contents(rows: Seq<Vec<u32>>) -> Seq<Seq<u32>> {
    rows.map_values(|r: Vec<u32>| r@)
}

/// A copy of a row.
pub fn copy_row(row: &Vec<u32>) -> (c: Vec<u32>)
    ensures
        c@ == row@,
{
    let c: Vec<u32> = vstd::slice::slice_to_vec(row.as_slice());
    assert(c@ =~= row@);
    c
}

/// A row cut into parts of one width.
pub open spec fn row_parts(row: Seq<u32>, n: nat, width: nat) -> Seq<Seq<u32>> {
    Seq::new(n, |h: int| row.subrange(h * width, (h + 1) * width))
}

/// A row cut into parts of one width.
pub fn cut_row(row: &Vec<u32>, n: usize, width: usize) -> (parts: Vec<Vec<u32>>)
    requires
        row@.len() == n * width,
    ensures
        contents(parts@) == row_parts(row@, n as nat, width as nat),
{
    let total: usize = row.len();
    let mut parts: Vec<Vec<u32>> = Vec::new();
    let mut start: usize = 0;
    let mut h: usize = 0;
    while h < n
        invariant
            h <= n,
            start == h * width,
            total == row@.len() == n * width,
            contents(parts@) == row_parts(row@, h as nat, width as nat),
        decreases n - h,
    {
        assert(h * width + width == (h + 1) * width && (h + 1) * width <= n * width)
            by (nonlinear_arith)
            requires
                0 <= h < n,
                0 <= width,
        ;
        let end: usize = start + width;
        let part: Vec<u32> = vstd::slice::slice_to_vec(
            vstd::slice::slice_subrange(row.as_slice(), start, end),
        );
        assert(part@ =~= row@.subrange(h * width, (h + 1) * width));
        let ghost before = contents(parts@);
        parts.push(part);
        assert(contents(parts@) =~= before.push(part@));
        assert(contents(parts@) =~= row_parts(row@, (h + 1) as nat, width as nat));
        start = end;
        h += 1;
    }
    parts
}

/// The parts have the width.
pub proof fn lemma_part_width(row: Seq<u32>, n: nat, width: nat, h: int)
    requires
        row.len() == n * width,
        0 <= h < n,
    ensures
        row_parts(row, n, width)[h].len() == width,
{
    assert((h + 1) * width == h * width + width && 0 <= h * width && (h + 1) * width <= n * width)
        by (nonlinear_arith)
        requires
            0 <= h < n,
            0 <= width,
    ;
}

/// Numbers are written with the least significant byte first: byte `i` is what is
/// left of the number after `i` divisions by 256, up to the next multiple of it.
pub proof fn law_low_byte_comes_first(v: nat, n: nat)
    ensures
        le_bytes(v, n).len() == n,
        n >= 1 ==> le_bytes(v, n)[0] as nat == v % 256,
        n >= 2 ==> le_bytes(v, n)[1] as nat == v / 256 % 256,
        n >= 3 ==> le_bytes(v, n)[2] as nat == v / 256 / 256 % 256,
        n >= 4 ==> le_bytes(v, n)[3] as nat == v / 256 / 256 / 256 % 256,
        n >= 1 ==> le_bytes(v, n).skip(1) == le_bytes(v / 256, (n - 1) as nat),
{
    reveal_with_fuel(le_bytes, 5);
    lemma_le_bytes_len(v, n);
    if n >= 1 {
        lemma_le_bytes_len(v / 256, (n - 1) as nat);
        assert(le_bytes(v, n).skip(1) =~= le_bytes(v / 256, (n - 1) as nat));
    }
}

/// What a run of bytes is worth: the first byte counts once, every further one 256
/// times what the one before it counts.
pub proof fn law_worth_of_bytes(s: Seq<u8>)
    ensures
        s.len() == 0 ==> le_value(s) == 0,
        s.len() == 1 ==> le_value(s) == s[0] as nat,
        s.len() == 2 ==> le_value(s) == s[0] + 256 * s[1],
        s.len() == 4 ==> le_value(s) == s[0] + 256 * s[1] + 65536 * s[2] + 16777216 * s[3],
        s.len() > 0 ==> le_value(s) == s[0] + 256 * le_value(s.skip(1)),
{
    reveal_with_fuel(le_value, 5);
    if s.len() >= 2 {
        assert(s.skip(1)[0] == s[1]);
    }
    if s.len() == 4 {
        assert(s.skip(1).skip(1)[0] == s[2]);
        assert(s.skip(1).skip(1).skip(1)[0] == s[3]);
    }
}

/// Word `i` of a run of bytes is worth its bytes `4 * i` to `4 * i + 3`.
pub proof fn law_word_of_bytes(s: Seq<u8>, i: int)
    requires
        0 <= i < s.len() / 4,
    ensures
        words_of(s).len() == s.len() / 4,
        words_of(s)[i] == s[4 * i] + 256 * s[4 * i + 1] + 65536 * s[4 * i + 2] + 16777216 * s[4 * i
            + 3],
{
    let part = s.subrange(4 * i, 4 * i + 4);
    law_worth_of_bytes(part);
    assert(part[0] == s[4 * i] && part[1] == s[4 * i + 1] && part[2] == s[4 * i + 2] && part[3]
        == s[4 * i + 3]);
}

/// Word `i` of part `h` of a row is word `h * width + i` of the row.
pub proof fn law_part_words(row: Seq<u32>, n: nat, width: nat, h: int, i: int)
    requires
        row.len() == n * width,
        0 <= h < n,
        0 <= i < width,
    ensures
        row_parts(row, n, width).len() == n,
        row_parts(row, n, width)[h].len() == width,
        0 <= h * width + i < row.len(),
        row_parts(row, n, width)[h][i] == row[h * width + i],
{
    assert(0 <= h * width && (h + 1) * width == h * width + width && (h + 1) * width <= n * width)
        by (nonlinear_arith)
        requires
            0 <= h < n,
            width >= 0,
    ;
}

/// The words of some rows are those of each row at its place.
pub proof fn law_contents_by_place(rows: Seq<Vec<u32>>, i: int)
    requires
        0 <= i < rows.len(),
    ensures
        contents(rows).len() == rows.len(),
        contents(rows)[i] == rows[i]@,
{
}

} // verus!
