//! Reflected CRC-16/CCITT (polynomial 0x8408, initial value 0), table driven.

use vstd::prelude::*;

verus! {

/// Number of entries of the byte-indexed CRC table.
pub const CRC_TABLE_LEN: usize = 256;

/// One shift of the reflected CCITT register.
pub open spec fn crc_shift(x: u16) -> u16 {
    if x & 1u16 == 1u16 {
        ((x >> 1u16) ^ 0x8408u16) as u16
    } else {
        (x >> 1u16) as u16
    }
}

/// `n` successive shifts of the register.
pub open spec fn crc_shifts(x: u16, n: nat) -> u16
    decreases n,
{
    if n == 0 {
        x
    } else {
        crc_shift(crc_shifts(x, (n - 1) as nat))
    }
}

/// The table entry for index `i`: the register `i` shifted eight times.
pub open spec fn crc_table_entry(i: u8) -> u16 {
    crc_shifts(i as u16, 8)
}

/// The running CRC after one more byte `b`.
pub open spec fn crc_update(crc: u16, b: u8) -> u16 {
    ((crc >> 8u16) ^ crc_table_entry(((crc ^ (b as u16)) & 0xffu16) as u8)) as u16
}

/// The CRC of a byte string, starting from 0.
pub open spec fn crc_of(s: Seq<u8>) -> u16
    decreases s.len(),
{
    if s.len() == 0 {
        0
    } else {
        crc_update(crc_of(s.drop_last()), s.last())
    }
}

/// The two bytes that close a block whose data has CRC `c`: low byte first.
pub open spec fn crc_trailer(c: u16) -> Seq<u8> {
    seq![(c & 0xffu16) as u8, (c >> 8u16) as u8]
}

/// A table whose every entry is the one `crc_table_entry` gives.
pub open spec fn is_crc_table(t: Seq<u16>) -> bool {
    &&& t.len() == CRC_TABLE_LEN
    &&& forall|i: int| 0 <= i < CRC_TABLE_LEN ==> #[trigger] t[i] == crc_table_entry(i as u8)
}

fn shift_once(x: u16) -> (r: u16)
    ensures
        r == crc_shift(x),
{
    if x & 1 == 1 {
        (x >> 1) ^ 0x8408
    } else {
        x >> 1
    }
}

/// The table entry for index `i`.
pub fn crc_table_value(i: u8) -> (r: u16)
    ensures
        r == crc_table_entry(i),
{
    let mut x: u16 = i as u16;
    let mut k: usize = 0;
    while k < 8
        invariant
            k <= 8,
            x == crc_shifts(i as u16, k as nat),
        decreases 8 - k,
    {
        x = shift_once(x);
        k = k + 1;
    }
    x
}

/// Builds the 256-entry byte table of the reflected CCITT CRC.
pub fn crc_table() -> (t: Vec<u16>)
    ensures
        is_crc_table(t@),
{
    let mut t: Vec<u16> = Vec::new();
    let mut i: usize = 0;
    while i < CRC_TABLE_LEN
        invariant
            i <= CRC_TABLE_LEN,
            t@.len() == i,
            forall|j: int| 0 <= j < i ==> #[trigger] t@[j] == crc_table_entry(j as u8),
        decreases CRC_TABLE_LEN - i,
    {
        t.push(crc_table_value(i as u8));
        i = i + 1;
    }
    t
}

/// Feeds one byte into the running CRC through the table.
pub fn crc_step(table: &Vec<u16>, crc: u16, b: u8) -> (r: u16)
    requires
        is_crc_table(table@),
    ensures
        r == crc_update(crc, b),
{
    let idx: u16 = (crc ^ (b as u16)) & 0xff;
    assert(idx < 256) by (bit_vector)
        requires
            idx == (crc ^ (b as u16)) & 0xffu16,
    ;
    (crc >> 8) ^ table[idx as usize]
}

/// The CRC of `data`, starting from 0.
pub fn crc_ccitt(table: &Vec<u16>, data: &[u8]) -> (r: u16)
    requires
        is_crc_table(table@),
    ensures
        r == crc_of(data@),
{
    let mut crc: u16 = 0;
    let mut i: usize = 0;
    while i < data.len()
        invariant
            is_crc_table(table@),
            i <= data@.len(),
            crc == crc_of(data@.subrange(0, i as int)),
        decreases data@.len() - i,
    {
        assert(data@.subrange(0, i as int + 1).drop_last() == data@.subrange(0, i as int));
        crc = crc_step(table, crc, data[i]);
        i = i + 1;
    }
    assert(data@.subrange(0, data@.len() as int) == data@);
    crc
}

/// The zero register is a fixed point of the table: entry 0 is 0.
proof fn lemma_table_entry_zero()
    ensures
        crc_table_entry(0) == 0,
{
    assert(crc_shift(0) == 0) by {
        assert((0u16 & 1u16) == 0u16) by (bit_vector);
        assert((0u16 >> 1u16) == 0u16) by (bit_vector);
    }
    reveal_with_fuel(crc_shifts, 9);
}

/// Appending a block's own CRC, low byte first, brings the register back
/// to zero: this is what makes a received block check as valid.
pub proof fn lemma_crc_round_trip(s: Seq<u8>)
    ensures
        crc_of(s + crc_trailer(crc_of(s))) == 0,
{
    let c = crc_of(s);
    let lo = (c & 0xffu16) as u8;
    let hi = (c >> 8u16) as u8;
    let t = s + crc_trailer(c);
    assert(t.drop_last() == s.push(lo));
    assert(s.push(lo).drop_last() == s);
    assert(t.last() == hi);
    assert(crc_of(s.push(lo)) == crc_update(c, lo));
    assert(crc_of(t) == crc_update(crc_update(c, lo), hi));
    lemma_table_entry_zero();
    let i1 = ((c ^ (lo as u16)) & 0xffu16) as u8;
    assert(i1 == 0) by (bit_vector)
        requires
            lo == (c & 0xffu16) as u8,
            i1 == ((c ^ (lo as u16)) & 0xffu16) as u8,
    ;
    let c1 = ((c >> 8u16) ^ crc_table_entry(i1)) as u16;
    assert(c1 == c >> 8u16) by (bit_vector)
        requires
            c1 == ((c >> 8u16) ^ 0u16) as u16,
    ;
    let i2 = ((c1 ^ (hi as u16)) & 0xffu16) as u8;
    assert(i2 == 0 && (c1 >> 8u16) == 0u16) by (bit_vector)
        requires
            hi == (c >> 8u16) as u8,
            c1 == c >> 8u16,
            i2 == ((c1 ^ (hi as u16)) & 0xffu16) as u8,
    ;
    assert(((c1 >> 8u16) ^ 0u16) as u16 == 0u16) by (bit_vector)
        requires
            (c1 >> 8u16) == 0u16,
    ;
}

} // verus!
