//! Big-endian byte strings for the fixed-layout PCP wire format.
//!
//! A field of `n` bytes carries the base-256 digits of its value, most
//! significant first. [`be_bytes`] and [`from_be`] are the mathematical
//! forms; [`write_be`] and [`read_be`] are the verified executable forms.

use vstd::prelude::*;
use vstd::arithmetic::div_mod::{
    lemma_fundamental_div_mod, lemma_div_nonincreasing, lemma_div_pos_is_pos,
};

verus! {

/// 256 raised to `n`: the number of values an `n`-byte field can carry.
pub open spec fn pow256(n: nat) -> int
    decreases n,
{
    if n == 0 {
        1
    } else {
        256 * pow256((n - 1) as nat)
    }
}

/// The `n` base-256 digits of `x`, most significant first.
pub open spec fn be_bytes(x: int, n: nat) -> Seq<u8>
    decreases n,
{
    if n == 0 {
        Seq::empty()
    } else {
        be_bytes(x / 256, (n - 1) as nat).push((x % 256) as u8)
    }
}

/// The value of a big-endian byte string.
pub open spec fn from_be(s: Seq<u8>) -> int
    decreases s.len(),
{
    if s.len() == 0 {
        0
    } else {
        from_be(s.drop_last()) * 256 + s.last()
    }
}

/// A run of `n` zero bytes.
pub open spec fn zeros(n: nat) -> Seq<u8> {
    Seq::new(n, |i: int| 0u8)
}

pub proof fn lemma_pow256_positive(n: nat)
    ensures
        pow256(n) >= 1,
    decreases n,
{
    if n > 0 {
        lemma_pow256_positive((n - 1) as nat);
    }
}

pub proof fn lemma_pow256_increases(a: nat, b: nat)
    requires
        a <= b,
    ensures
        pow256(a) <= pow256(b),
    decreases b,
{
    if a < b {
        lemma_pow256_increases(a, (b - 1) as nat);
        lemma_pow256_positive((b - 1) as nat);
    }
}

pub proof fn lemma_be_bytes_len(x: int, n: nat)
    ensures
        be_bytes(x, n).len() == n,
    decreases n,
{
    if n > 0 {
        lemma_be_bytes_len(x / 256, (n - 1) as nat);
    }
}

/// Reading back the digits of `x` yields `x`.
pub proof fn lemma_from_be_be_bytes(x: int, n: nat)
    requires
        0 <= x < pow256(n),
    ensures
        from_be(be_bytes(x, n)) == x,
    decreases n,
{
    if n > 0 {
        assert(x / 256 < pow256((n - 1) as nat)) by {
            lemma_pow256_positive((n - 1) as nat);
            assert(x <= 256 * pow256((n - 1) as nat) - 1);
            assert((256 * pow256((n - 1) as nat) - 1) / 256 == pow256((n - 1) as nat) - 1)
                by (nonlinear_arith)
                requires
                    pow256((n - 1) as nat) >= 1,
            ;
            lemma_div_nonincreasing_helper(x, 256 * pow256((n - 1) as nat) - 1, 256);
        }
        assert(x / 256 >= 0) by {
            lemma_div_pos_is_pos(x, 256);
        }
        lemma_from_be_be_bytes(x / 256, (n - 1) as nat);
        let s = be_bytes(x / 256, (n - 1) as nat).push((x % 256) as u8);
        assert(s.drop_last() =~= be_bytes(x / 256, (n - 1) as nat));
        lemma_fundamental_div_mod(x, 256);
    }
}

proof fn lemma_div_nonincreasing_helper(a: int, b: int, d: int)
    requires
        0 <= a <= b,
        d >= 1,
    ensures
        a / d <= b / d,
{
    vstd::arithmetic::div_mod::lemma_div_is_ordered(a, b, d);
}

/// The value of a byte string fits in as many bytes as it has.
pub proof fn lemma_from_be_bounds(s: Seq<u8>)
    ensures
        0 <= from_be(s) < pow256(s.len()),
    decreases s.len(),
{
    if s.len() > 0 {
        lemma_from_be_bounds(s.drop_last());
        let prefix = from_be(s.drop_last());
        assert(prefix * 256 + s.last() < pow256(s.len())) by (nonlinear_arith)
            requires
                0 <= prefix < pow256((s.len() - 1) as nat),
                0 <= s.last() < 256,
                pow256(s.len()) == 256 * pow256((s.len() - 1) as nat),
        ;
        assert(prefix * 256 + s.last() >= 0) by (nonlinear_arith)
            requires
                prefix >= 0,
                s.last() >= 0,
        ;
    }
}

/// The digit of significance `n - 1 - j` stands at index `j`.
pub proof fn lemma_be_bytes_index(x: int, n: nat, j: int)
    requires
        0 <= x,
        0 <= j < n,
    ensures
        be_bytes(x, n).len() == n,
        be_bytes(x, n)[j] == ((x / pow256((n - 1 - j) as nat)) % 256) as u8,
    decreases n,
{
    lemma_be_bytes_len(x, n);
    if j == n - 1 {
        lemma_pow256_positive(0);
        assert(x / pow256(0) == x);
    } else {
        lemma_div_pos_is_pos(x, 256);
        lemma_be_bytes_index(x / 256, (n - 1) as nat, j);
        lemma_be_bytes_len(x / 256, (n - 1) as nat);
        assert(be_bytes(x, n)[j] == be_bytes(x / 256, (n - 1) as nat)[j]);
        let k = (n - 2 - j) as nat;
        assert((x / 256) / pow256(k) == x / pow256((k + 1) as nat)) by {
            lemma_pow256_positive(k);
            vstd::arithmetic::div_mod::lemma_div_denominator(x, 256, pow256(k));
        }
        assert((k + 1) as nat == (n - 1 - j) as nat);
    }
}

/// The field widths the PCP layout uses, as powers of 256.
pub proof fn lemma_pow256_values()
    ensures
        pow256(1) == 0x100,
        pow256(2) == 0x1_0000,
        pow256(4) == 0x1_0000_0000,
        pow256(12) == 0x1_0000_0000_0000_0000_0000_0000,
        pow256(16) == 0x1_0000_0000_0000_0000_0000_0000_0000_0000,
{
    reveal_with_fuel(pow256, 17);
}

/// Write the `width`-byte big-endian form of `x` at `offset`.
pub fn write_be(buf: &mut Vec<u8>, offset: usize, width: usize, x: u128)
    requires
        offset + width <= old(buf).len(),
        width <= 16,
        (x as int) < pow256(width as nat),
    ensures
        final(buf)@ =~= old(buf)@.take(offset as int) + be_bytes(x as int, width as nat) + old(
            buf,
        )@.skip((offset + width) as int),
        final(buf)@.len() == old(buf)@.len(),
{
    let mut v: u128 = x;
    let mut i: usize = width;
    proof {
        lemma_be_bytes_len(x as int, width as nat);
        lemma_pow256_positive(0);
        assert(pow256(0) == 1);
        assert(x as int / 1 == x as int);
    }
    while i > 0
        invariant
            i <= width,
            offset + width <= buf.len(),
            buf@.len() == old(buf)@.len(),
            v as int == x as int / pow256((width - i) as nat),
            be_bytes(x as int, width as nat).len() == width,
            forall|j: int|
                0 <= j < buf@.len() && !(offset + i <= j < offset + width) ==> buf@[j] == old(
                    buf,
                )@[j],
            forall|j: int|
                i <= j < width ==> buf@[offset + j] == be_bytes(x as int, width as nat)[j],
        decreases i,
    {
        i = i - 1;
        let byte: u8 = (v % 256) as u8;
        buf.set(offset + i, byte);
        proof {
            lemma_be_bytes_index(x as int, width as nat, i as int);
            let k = (width - i - 1) as nat;
            assert((x as int / pow256(k)) / 256 == x as int / pow256((k + 1) as nat)) by {
                lemma_pow256_positive(k);
                vstd::arithmetic::div_mod::lemma_div_denominator(x as int, pow256(k), 256);
            }
            assert(v as int / 256 == x as int / pow256((width - i) as nat));
            assert(v as int / 256 <= v as int) by {
                lemma_div_nonincreasing(v as int, 256);
            }
            assert(v as int / 256 >= 0) by {
                lemma_div_pos_is_pos(v as int, 256);
            }
        }
        v = v / 256;
    }
    proof {
        lemma_be_bytes_len(x as int, width as nat);
    }
}

/// Copy `data` into the buffer at `offset`.
pub fn write_bytes(buf: &mut Vec<u8>, offset: usize, data: &Vec<u8>)
    requires
        offset + data@.len() <= old(buf).len(),
    ensures
        final(buf)@ =~= old(buf)@.take(offset as int) + data@ + old(buf)@.skip(
            offset + data@.len(),
        ),
        final(buf)@.len() == old(buf)@.len(),
{
    let mut i: usize = 0;
    while i < data.len()
        invariant
            i <= data@.len(),
            offset + data@.len() <= buf@.len(),
            offset + data@.len() <= usize::MAX,
            buf@.len() == old(buf)@.len(),
            buf@ =~= old(buf)@.take(offset as int) + data@.take(i as int) + old(buf)@.skip(
                offset + i,
            ),
        decreases data@.len() - i,
    {
        let byte: u8 = data[i];
        buf.set(offset + i, byte);
        proof {
            assert(buf@ =~= old(buf)@.take(offset as int) + data@.take(i + 1) + old(buf)@.skip(
                offset + i + 1,
            ));
        }
        i = i + 1;
    }
}

/// Read the value of the `width` bytes at `offset`.
pub fn read_be(buf: &Vec<u8>, offset: usize, width: usize) -> (x: u128)
    requires
        offset + width <= buf.len(),
        width <= 16,
    ensures
        x as int == from_be(buf@.subrange(offset as int, (offset + width) as int)),
{
    let ghost full = buf@.subrange(offset as int, (offset + width) as int);
    let mut x: u128 = 0;
    let mut j: usize = 0;
    while j < width
        invariant
            j <= width,
            width <= 16,
            offset + width <= buf.len(),
            full == buf@.subrange(offset as int, (offset + width) as int),
            x as int == from_be(full.take(j as int)),
            (x as int) < pow256(j as nat),
        decreases width - j,
    {
        proof {
            let taken = full.take((j + 1) as int);
            assert(taken.drop_last() =~= full.take(j as int));
            assert(taken.last() == buf@[offset + j]);
            lemma_pow256_increases((j + 1) as nat, 16);
            assert(pow256(16) == 0x1_0000_0000_0000_0000_0000_0000_0000_0000) by {
                reveal_with_fuel(pow256, 17);
            }
            assert(x as int * 256 + buf@[offset + j as int] < pow256((j + 1) as nat))
                by (nonlinear_arith)
                requires
                    (x as int) < pow256(j as nat),
                    0 <= buf@[offset + j as int] < 256,
                    pow256((j + 1) as nat) == 256 * pow256(j as nat),
            ;
            assert(x as int * 256 >= 0) by (nonlinear_arith)
                requires
                    x as int >= 0,
            ;
        }
        x = x * 256 + (buf[offset + j] as u128);
        j = j + 1;
    }
    proof {
        assert(full.take(width as int) =~= full);
    }
    x
}

} // verus!
