//! The decoded ACARS record and how its fields are read out of a block's
//! parity-stripped text.

use vstd::prelude::*;

verus! {

/// Start of text: opens the body of a block.
pub const STX: u8 = 0x02;
/// End of text, odd-parity form: closes the last block of a message.
pub const ETX: u8 = 0x83;
/// End of transmission block, odd-parity form: closes a block with more to follow.
pub const ETB: u8 = 0x97;
/// Negative acknowledgement, the ack slot's "nothing acknowledged".
pub const NAK: u8 = 0x15;
/// Length of the fixed block header: mode, address, ack, label, block id, STX/ETX.
pub const HEADER_LEN: usize = 13;

/// What the ack slot of a block says.
#[derive(Clone, Copy, Debug, PartialEq, Eq, Structural)]
pub enum AckStatus {
    Ack(u8),
    Nack,
}

/// Direction of a block.
#[derive(Clone, Copy, Debug, PartialEq, Eq, Structural)]
pub enum DownlinkStatus {
    AirToGround,
    GroundToAir,
}

/// One decoded ACARS block. Character fields hold parity-stripped ASCII.
#[derive(Clone, Debug, PartialEq, Eq)]
pub struct AssembledACARSMessage {
    pub mode: u8,
    pub aircraft_tail: Vec<u8>,
    pub acknowledgement: AckStatus,
    pub label: Vec<u8>,
    pub block_id: u8,
    pub message_number: Option<Vec<u8>>,
    pub flight_id: Option<Vec<u8>>,
    pub sublabel: Option<Vec<u8>>,
    pub mfi: Option<Vec<u8>>,
    pub block_start: u8,
    pub block_end: u8,
    pub message_text: Option<Vec<u8>>,
    pub parity_errors: u32,
    /// Channel frequency in Hz.
    pub frequency: u32,
    pub downlink_status: DownlinkStatus,
    pub message_number_without_sequence: Option<Vec<u8>>,
    pub message_number_sequence: Option<u8>,
}

pub open spec fn is_digit(c: u8) -> bool {
    0x30 <= c <= 0x39
}

/// A visible character, neither space nor control.
pub open spec fn is_printable(c: u8) -> bool {
    0x20 < c < 0x7f
}

/// `s` without its '.' characters, order kept.
pub open spec fn remove_dots(s: Seq<u8>) -> Seq<u8>
    decreases s.len(),
{
    if s.len() == 0 {
        s
    } else if s.last() == 0x2eu8 {
        remove_dots(s.drop_last())
    } else {
        remove_dots(s.drop_last()).push(s.last())
    }
}

proof fn lemma_remove_dots_len(s: Seq<u8>)
    ensures
        remove_dots(s).len() <= s.len(),
    decreases s.len(),
{
    if s.len() > 0 {
        lemma_remove_dots_len(s.drop_last());
    }
}

/// The aircraft address of block text `u`: its seven characters without
/// dots, right-padded with spaces.
pub open spec fn tail_of(u: Seq<u8>) -> Seq<u8> {
    let f = remove_dots(u.subrange(1, 8));
    f + Seq::new((7 - f.len()) as nat, |i: int| 0x20u8)
}

pub open spec fn ack_of(u: Seq<u8>) -> AckStatus {
    if u[8] == NAK {
        AckStatus::Nack
    } else {
        AckStatus::Ack(u[8])
    }
}

/// A block is read as air-to-ground exactly when its block id is a digit.
pub open spec fn downlink_of(u: Seq<u8>) -> DownlinkStatus {
    if is_digit(u[11]) {
        DownlinkStatus::AirToGround
    } else {
        DownlinkStatus::GroundToAir
    }
}

/// End of the body: the last character is the block end and is not body.
pub open spec fn body_end(u: Seq<u8>) -> int {
    if u.len() > HEADER_LEN {
        u.len() - 1
    } else {
        HEADER_LEN as int
    }
}

/// Air-to-ground blocks opened by STX carry a message number and flight id.
pub open spec fn numbers_present(u: Seq<u8>) -> bool {
    downlink_of(u) == DownlinkStatus::AirToGround && u[12] == (STX & 0x7fu8)
}

pub open spec fn after_numbers(u: Seq<u8>) -> int {
    let n = body_end(u) - HEADER_LEN;
    if numbers_present(u) {
        HEADER_LEN + if n < 10 {
            n
        } else {
            10
        }
    } else {
        HEADER_LEN as int
    }
}

pub open spec fn is_h1(u: Seq<u8>) -> bool {
    u[9] == 0x48u8 && u[10] == 0x31u8
}

/// Where an H1 sublabel starts ("- #XX" or "#XX" after the numbers), or -1.
pub open spec fn sublabel_start(u: Seq<u8>) -> int {
    let k = after_numbers(u);
    let e = body_end(u);
    if is_h1(u) && e - k >= 5 && u[k] == 0x2du8 && u[k + 1] == 0x20u8 && u[k + 2] == 0x23u8
        && is_printable(u[k + 3]) && is_printable(u[k + 4]) {
        k + 3
    } else if is_h1(u) && e - k >= 3 && u[k] == 0x23u8 && is_printable(u[k + 1]) && is_printable(
        u[k + 2],
    ) {
        k + 1
    } else {
        -1
    }
}

pub open spec fn after_sublabel(u: Seq<u8>) -> int {
    if sublabel_start(u) >= 0 {
        sublabel_start(u) + 2
    } else {
        after_numbers(u)
    }
}

/// A sublabel followed by "/" and two more characters carries an MFI.
pub open spec fn mfi_present(u: Seq<u8>) -> bool {
    sublabel_start(u) >= 0 && body_end(u) - after_sublabel(u) >= 3 && u[after_sublabel(u)]
        == 0x2fu8
}

pub open spec fn text_start(u: Seq<u8>) -> int {
    if mfi_present(u) {
        after_sublabel(u) + 3
    } else {
        after_sublabel(u)
    }
}

/// `o` is present exactly when `present` holds, and then holds `s`.
pub open spec fn bytes_field(o: Option<Vec<u8>>, present: bool, s: Seq<u8>) -> bool {
    match o {
        Some(v) => present && v@ == s,
        None => !present,
    }
}

/// `m` is the record read from parity-stripped block text `u`, which had
/// `err` parity errors and came in on `freq` Hz.
pub open spec fn message_fields(m: AssembledACARSMessage, u: Seq<u8>, err: u32, freq: u32) -> bool {
    let e = body_end(u);
    let numbered = numbers_present(u) && e - HEADER_LEN >= 4;
    &&& m.mode == u[0]
    &&& m.aircraft_tail@ == tail_of(u)
    &&& m.acknowledgement == ack_of(u)
    &&& m.label@ == u.subrange(9, 11)
    &&& m.block_id == u[11]
    &&& m.block_start == u[12]
    &&& m.block_end == u[u.len() - 1]
    &&& m.downlink_status == downlink_of(u)
    &&& bytes_field(m.message_number, numbered, u.subrange(13, 17))
    &&& bytes_field(m.flight_id, numbers_present(u) && e - HEADER_LEN >= 10, u.subrange(17, 23))
    &&& bytes_field(
        m.sublabel,
        sublabel_start(u) >= 0,
        u.subrange(sublabel_start(u), sublabel_start(u) + 2),
    )
    &&& bytes_field(
        m.mfi,
        mfi_present(u),
        u.subrange(after_sublabel(u) + 1, after_sublabel(u) + 3),
    )
    &&& bytes_field(m.message_text, text_start(u) < e, u.subrange(text_start(u), e))
    &&& bytes_field(m.message_number_without_sequence, numbered, u.subrange(13, 16))
    &&& m.message_number_sequence == (if numbered {
        Some(u[16])
    } else {
        None
    })
    &&& m.parity_errors == err
    &&& m.frequency == freq
}

/// The bytes `v[lo..hi]`.
pub fn copy_range(v: &Vec<u8>, lo: usize, hi: usize) -> (r: Vec<u8>)
    requires
        lo <= hi <= v@.len(),
    ensures
        r@ == v@.subrange(lo as int, hi as int),
{
    let mut r: Vec<u8> = Vec::new();
    let mut i: usize = lo;
    while i < hi
        invariant
            lo <= i <= hi <= v@.len(),
            r@ == v@.subrange(lo as int, i as int),
        decreases hi - i,
    {
        r.push(v[i]);
        i = i + 1;
    }
    r
}

fn read_tail(u: &Vec<u8>) -> (r: Vec<u8>)
    requires
        u@.len() >= HEADER_LEN,
    ensures
        r@ == tail_of(u@),
{
    let mut r: Vec<u8> = Vec::new();
    let mut i: usize = 1;
    while i < 8
        invariant
            1 <= i <= 8,
            u@.len() >= HEADER_LEN,
            r@ == remove_dots(u@.subrange(1, i as int)),
        decreases 8 - i,
    {
        assert(u@.subrange(1, i as int + 1).drop_last() == u@.subrange(1, i as int));
        if u[i] != 0x2e {
            r.push(u[i]);
        }
        i = i + 1;
    }
    let ghost f = r@;
    proof {
        lemma_remove_dots_len(u@.subrange(1, 8));
    }
    while r.len() < 7
        invariant
            f.len() <= r@.len() <= 7,
            r@ == f + Seq::new((r@.len() - f.len()) as nat, |i: int| 0x20u8),
        decreases 7 - r@.len(),
    {
        r.push(0x20);
        assert(r@ =~= f + Seq::new((r@.len() - f.len()) as nat, |i: int| 0x20u8));
    }
    r
}

/// Reads the record out of parity-stripped block text `u`.
pub fn parse_fields(u: &Vec<u8>, err: u32, freq: u32) -> (m: AssembledACARSMessage)
    requires
        u@.len() >= HEADER_LEN,
    ensures
        message_fields(m, u@, err, freq),
{
    let len = u.len();
    let ack = u[8];
    let block_id = u[11];
    let block_start = u[12];
    let acknowledgement = if ack == NAK {
        AckStatus::Nack
    } else {
        AckStatus::Ack(ack)
    };
    let downlink_status = if 0x30 <= block_id && block_id <= 0x39 {
        DownlinkStatus::AirToGround
    } else {
        DownlinkStatus::GroundToAir
    };
    let e: usize = if len > HEADER_LEN {
        len - 1
    } else {
        HEADER_LEN
    };
    let numbered_block = downlink_status == DownlinkStatus::AirToGround && block_start == (STX
        & 0x7f);
    let n = e - HEADER_LEN;
    let message_number = if numbered_block && n >= 4 {
        Some(copy_range(u, 13, 17))
    } else {
        None
    };
    let message_number_without_sequence = if numbered_block && n >= 4 {
        Some(copy_range(u, 13, 16))
    } else {
        None
    };
    let message_number_sequence = if numbered_block && n >= 4 {
        Some(u[16])
    } else {
        None
    };
    let flight_id = if numbered_block && n >= 10 {
        Some(copy_range(u, 17, 23))
    } else {
        None
    };
    let mut k: usize = if numbered_block {
        HEADER_LEN + if n < 10 {
            n
        } else {
            10
        }
    } else {
        HEADER_LEN
    };
    assert(k == after_numbers(u@));
    let h1 = u[9] == 0x48 && u[10] == 0x31;
    let mut sublabel: Option<Vec<u8>> = None;
    if h1 && e - k >= 5 && u[k] == 0x2d && u[k + 1] == 0x20 && u[k + 2] == 0x23 && 0x20 < u[k
        + 3] && u[k + 3] < 0x7f && 0x20 < u[k + 4] && u[k + 4] < 0x7f {
        sublabel = Some(copy_range(u, k + 3, k + 5));
        k = k + 5;
    } else if h1 && e - k >= 3 && u[k] == 0x23 && 0x20 < u[k + 1] && u[k + 1] < 0x7f && 0x20 < u[k
        + 2] && u[k + 2] < 0x7f {
        sublabel = Some(copy_range(u, k + 1, k + 3));
        k = k + 3;
    }
    assert(k == after_sublabel(u@));
    let mut mfi: Option<Vec<u8>> = None;
    if sublabel.is_some() && e - k >= 3 && u[k] == 0x2f {
        mfi = Some(copy_range(u, k + 1, k + 3));
        k = k + 3;
    }
    assert(k == text_start(u@));
    let message_text = if k < e {
        Some(copy_range(u, k, e))
    } else {
        None
    };
    AssembledACARSMessage {
        mode: u[0],
        aircraft_tail: read_tail(u),
        acknowledgement,
        label: copy_range(u, 9, 11),
        block_id,
        message_number,
        flight_id,
        sublabel,
        mfi,
        block_start,
        block_end: u[len - 1],
        message_text,
        parity_errors: err,
        frequency: freq,
        downlink_status,
        message_number_without_sequence,
        message_number_sequence,
    }
}

} // verus!
