//! Odd parity of 7-bit ACARS characters.

use vstd::prelude::*;

verus! {

/// Number of one bits of `b`.
pub open spec fn popcount(b: nat) -> nat
    decreases b,
{
    if b == 0 {
        0
    } else {
        (b % 2) + popcount(b / 2)
    }
}

/// A byte with an odd number of one bits: a well-formed ACARS character.
pub open spec fn odd_parity(b: u8) -> bool {
    popcount(b as nat) % 2 == 1
}

/// A table holding, for each byte, its number of one bits.
pub open spec fn is_numbits_table(t: Seq<u8>) -> bool {
    &&& t.len() == 256
    &&& forall|i: int| 0 <= i < 256 ==> #[trigger] t[i] as nat == popcount(i as nat)
}

proof fn lemma_popcount_bound(b: nat)
    requires
        b < 256,
    ensures
        popcount(b) <= 8,
{
    reveal_with_fuel(popcount, 9);
}

/// Number of one bits of `b`.
pub fn count_bits(b: u8) -> (r: u8)
    ensures
        r as nat == popcount(b as nat),
{
    let mut x: u8 = b;
    let mut n: u8 = 0;
    proof {
        lemma_popcount_bound(b as nat);
    }
    while x > 0
        invariant
            n as nat + popcount(x as nat) == popcount(b as nat),
            popcount(b as nat) <= 8,
        decreases x,
    {
        n = n + x % 2;
        x = x / 2;
    }
    n
}

/// Builds the 256-entry table of bit counts.
pub fn numbits_table() -> (t: Vec<u8>)
    ensures
        is_numbits_table(t@),
{
    let mut t: Vec<u8> = Vec::new();
    let mut i: usize = 0;
    while i < 256
        invariant
            i <= 256,
            t@.len() == i,
            forall|j: int| 0 <= j < i ==> #[trigger] t@[j] as nat == popcount(j as nat),
        decreases 256 - i,
    {
        t.push(count_bits(i as u8));
        i = i + 1;
    }
    t
}

/// Whether `b` has odd parity, read from the bit-count table: the low bit
/// of its count is set exactly for well-formed characters.
pub fn parity_ok(numbits: &Vec<u8>, b: u8) -> (r: bool)
    requires
        is_numbits_table(numbits@),
    ensures
        r == odd_parity(b),
        r == (numbits@[b as int] & 1u8 == 1u8),
{
    let n = numbits[b as usize];
    assert(n & 1u8 == n % 2) by (bit_vector);
    n & 1 == 1
}

/// Flipping the low bit of a byte flips its parity: the repair of a single
/// parity error tries exactly this.
pub proof fn lemma_low_bit_flip_parity(b: u8)
    ensures
        odd_parity(b ^ 1u8) != odd_parity(b),
{
    let f = b ^ 1u8;
    assert(b % 2 == 0 ==> f == b + 1) by (bit_vector)
        requires
            f == b ^ 1u8,
    ;
    assert(b % 2 == 1 ==> f == b - 1) by (bit_vector)
        requires
            f == b ^ 1u8,
    ;
    assert(f as nat / 2 == b as nat / 2);
    assert(popcount(f as nat) == (f as nat % 2) + popcount(f as nat / 2));
    assert(popcount(b as nat) == (b as nat % 2) + popcount(b as nat / 2));
}

/// Every well-formed character is marked valid by the bit-count table: the
/// low bit of its count is set.
pub proof fn lemma_numbits_marks_valid_characters(t: Seq<u8>, b: u8)
    requires
        is_numbits_table(t),
        odd_parity(b),
    ensures
        t[b as int] & 1u8 == 1u8,
{
    let n = t[b as int];
    assert(n as nat == popcount(b as nat));
    assert(n & 1u8 == n % 2) by (bit_vector);
}

/// The framing characters SYN (0x16), SOH (0x01), STX (0x02), ETX (0x83),
/// ETB (0x97) and DEL (0x7f) are themselves well-formed characters.
pub proof fn lemma_framing_characters_odd_parity()
    ensures
        odd_parity(0x16u8),
        odd_parity(0x01u8),
        odd_parity(0x02u8),
        odd_parity(0x83u8),
        odd_parity(0x97u8),
        odd_parity(0x7fu8),
{
    reveal_with_fuel(popcount, 9);
}

} // verus!
