//! Little-endian byte strings as numbers, and back.
use vstd::prelude::*;

verus! {

/// 256 to the power `n`: the number of byte strings of length `n`.
pub open spec fn pow256(n: nat) -> nat
    decreases n,
{
    if n == 0 {
        1
    } else {
        256 * pow256((n - 1) as nat)
    }
}

/// The number that `bytes` spells, least significant byte first.
pub open spec fn le_to_nat(bytes: Seq<u8>) -> nat
    decreases bytes.len(),
{
    if bytes.len() == 0 {
        0
    } else {
        bytes[0] as nat + 256 * le_to_nat(bytes.skip(1))
    }
}

/// The `width` low bytes of `value`, least significant byte first.
pub open spec fn nat_to_le(value: nat, width: nat) -> Seq<u8>
    decreases width,
{
    if width == 0 {
        Seq::empty()
    } else {
        seq![(value % 256) as u8] + nat_to_le(value / 256, (width - 1) as nat)
    }
}

/// The two's complement reading, `width` bytes wide, of an unsigned number.
pub open spec fn to_signed(value: nat, width: nat) -> int {
    if 2 * value >= pow256(width) {
        value - pow256(width)
    } else {
        value as int
    }
}

/// The unsigned number whose two's complement reading, `width` bytes wide,
/// is `value`.
pub open spec fn from_signed(value: int, width: nat) -> nat {
    if value < 0 {
        (value + pow256(width)) as nat
    } else {
        value as nat
    }
}

pub proof fn lemma_pow256_values()
    ensures
        pow256(0) == 1,
        pow256(1) == 0x100,
        pow256(2) == 0x1_0000,
        pow256(4) == 0x1_0000_0000,
        pow256(8) == 0x1_0000_0000_0000_0000,
{
    reveal_with_fuel(pow256, 9);
}

pub proof fn lemma_le_to_nat_bound(bytes: Seq<u8>)
    ensures
        le_to_nat(bytes) < pow256(bytes.len()),
    decreases bytes.len(),
{
    if bytes.len() > 0 {
        lemma_le_to_nat_bound(bytes.skip(1));
    }
}

pub proof fn lemma_nat_to_le_len(value: nat, width: nat)
    ensures
        nat_to_le(value, width).len() == width,
    decreases width,
{
    if width > 0 {
        lemma_nat_to_le_len(value / 256, (width - 1) as nat);
    }
}

/// Spelling the number of a byte string in as many bytes gives the string back.
pub proof fn lemma_le_bytes_round_trip(bytes: Seq<u8>)
    ensures
        nat_to_le(le_to_nat(bytes), bytes.len()) == bytes,
    decreases bytes.len(),
{
    if bytes.len() > 0 {
        let rest = bytes.skip(1);
        lemma_le_bytes_round_trip(rest);
        let value = le_to_nat(bytes);
        assert(value % 256 == bytes[0] as nat && value / 256 == le_to_nat(rest)) by {
            let low = bytes[0] as nat;
            let high = le_to_nat(rest);
            assert((low + 256 * high) % 256 == low && (low + 256 * high) / 256 == high)
                by (nonlinear_arith)
                requires
                    low < 256,
            ;
        }
        assert(nat_to_le(value, bytes.len()) =~= bytes);
    } else {
        assert(nat_to_le(le_to_nat(bytes), bytes.len()) =~= bytes);
    }
}

/// Reads up to eight bytes as a little-endian number.
pub fn le_decode(bytes: &[u8]) -> (value: u64)
    requires
        bytes@.len() <= 8,
    ensures
        value == le_to_nat(bytes@),
{
    let count: usize = bytes.len();
    let mut value: u64 = 0;
    let mut left: usize = count;
    proof {
        assert(bytes@.skip(count as int) =~= Seq::<u8>::empty());
        lemma_pow256_values();
    }
    while left > 0
        invariant
            left <= count,
            count == bytes@.len(),
            count <= 8,
            value == le_to_nat(bytes@.skip(left as int)),
        decreases left,
    {
        left = left - 1;
        proof {
            let tail = bytes@.skip(left as int);
            assert(tail.skip(1) =~= bytes@.skip(left + 1));
            assert(tail[0] == bytes@[left as int]);
            lemma_le_to_nat_bound(tail.skip(1));
            lemma_pow256_monotonic(tail.skip(1).len(), 7);
            lemma_pow256_values();
            assert(pow256(8) == 256 * pow256(7));
        }
        value = value * 256 + bytes[left] as u64;
    }
    proof {
        assert(bytes@.skip(0) =~= bytes@);
    }
    value
}

pub proof fn lemma_pow256_monotonic(small: nat, large: nat)
    requires
        small <= large,
    ensures
        pow256(small) <= pow256(large),
    decreases large,
{
    if small < large {
        lemma_pow256_monotonic(small, (large - 1) as nat);
    }
}

/// Spells a number in `width` little-endian bytes, dropping what does not fit.
pub fn le_encode(value: u64, width: usize) -> (bytes: Vec<u8>)
    ensures
        bytes@ == nat_to_le(value as nat, width as nat),
{
    let mut bytes: Vec<u8> = Vec::new();
    let mut rest: u64 = value;
    let mut done: usize = 0;
    while done < width
        invariant
            done <= width,
            bytes@.len() == done,
            bytes@ + nat_to_le(rest as nat, (width - done) as nat) == nat_to_le(
                value as nat,
                width as nat,
            ),
        decreases width - done,
    {
        let ghost before = bytes@;
        bytes.push((rest % 256) as u8);
        proof {
            assert(before + nat_to_le(rest as nat, (width - done) as nat) =~= bytes@ + nat_to_le(
                (rest / 256) as nat,
                (width - done - 1) as nat,
            ));
        }
        rest = rest / 256;
        done = done + 1;
    }
    proof {
        assert(bytes@ + Seq::<u8>::empty() =~= bytes@);
    }
    bytes
}

/// Half of `pow256(width)`: the first number whose two's complement reading,
/// `width` bytes wide, is negative.
fn sign_threshold(width: usize) -> (half: u64)
    requires
        1 <= width <= 8,
    ensures
        2 * half == pow256(width as nat),
{
    let mut half: u64 = 128;
    let mut bytes: usize = 1;
    proof {
        lemma_pow256_values();
    }
    while bytes < width
        invariant
            1 <= bytes <= width <= 8,
            2 * half == pow256(bytes as nat),
        decreases width - bytes,
    {
        proof {
            lemma_pow256_values();
            lemma_pow256_monotonic(bytes as nat, 7);
            assert(pow256(8) == 256 * pow256(7));
        }
        half = half * 256;
        bytes = bytes + 1;
    }
    half
}

/// Reads one to eight bytes as a little-endian two's complement number.
pub fn le_decode_signed(bytes: &[u8]) -> (value: i64)
    requires
        1 <= bytes@.len() <= 8,
    ensures
        value == to_signed(le_to_nat(bytes@), bytes@.len()),
{
    let plain: u64 = le_decode(bytes);
    let half: u64 = sign_threshold(bytes.len());
    proof {
        lemma_le_to_nat_bound(bytes@);
        lemma_pow256_values();
        lemma_pow256_monotonic(bytes@.len(), 8);
    }
    if plain >= half {
        (plain as i128 - 2 * (half as i128)) as i64
    } else {
        plain as i64
    }
}

/// Spells a two's complement number that fits in `width` bytes.
pub fn le_encode_signed(value: i64, width: usize) -> (bytes: Vec<u8>)
    requires
        1 <= width <= 8,
        -(pow256(width as nat) as int) <= 2 * value < pow256(width as nat),
    ensures
        bytes@ == nat_to_le(from_signed(value as int, width as nat), width as nat),
{
    let half: u64 = sign_threshold(width);
    proof {
        lemma_pow256_values();
        lemma_pow256_monotonic(width as nat, 8);
    }
    let plain: u64 = if value < 0 {
        (value as i128 + 2 * (half as i128)) as u64
    } else {
        value as u64
    };
    le_encode(plain, width)
}

pub proof fn lemma_le_to_nat_zero(len: nat)
    ensures
        le_to_nat(Seq::new(len, |i: int| 0u8)) == 0,
    decreases len,
{
    if len > 0 {
        lemma_le_to_nat_zero((len - 1) as nat);
        assert(Seq::new(len, |i: int| 0u8).skip(1) =~= Seq::new((len - 1) as nat, |i: int| 0u8));
    }
}

} // verus!
