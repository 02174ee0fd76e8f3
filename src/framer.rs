//! The ACARS frame assembler: bits in, bytes, framing state machine, block
//! validation by parity and CRC, and decoded records out.

use vstd::prelude::*;
use crate::crc::{crc_of, crc_update, is_crc_table, crc_table, crc_ccitt, crc_step};
use crate::parity::{odd_parity, is_numbits_table, numbits_table, parity_ok};
use crate::message::{
    AssembledACARSMessage, message_fields, parse_fields, copy_range, HEADER_LEN, STX, ETX, ETB,
};

verus! {

/// Synchronisation character; two of them precede every block.
pub const SYN: u8 = 0x16;
/// The bitwise complement of SYN: what SYN reads as when the demodulator's
/// phase is inverted.
pub const SYN_INVERTED: u8 = 0xe9;
/// Start of heading: the first character of a block.
pub const SOH: u8 = 0x01;
/// Delete, sent after the CRC: a block whose ETX was damaged ends at it.
pub const DLE: u8 = 0x7f;
/// Most parity errors a block may hold and still be repaired.
pub const MAXPERR: u32 = 3;
/// Longest block text kept before the assembler gives up on a block.
pub const MAX_TEXT: usize = 240;

/// Where the assembler is within a frame.
#[derive(Clone, Copy, Debug, PartialEq, Eq, Structural)]
pub enum FrameState {
    WaitSyn,
    Syn2,
    Soh1,
    Txt,
    Crc1,
    Crc2,
    End,
}

/// Why a block was discarded.
#[derive(Clone, Copy, Debug, PartialEq, Eq, Structural)]
pub enum DropReason {
    /// More than MAXPERR parity errors.
    TooManyParityErrors,
    /// Text longer than MAX_TEXT.
    Overflow,
    /// Text shorter than a block header.
    TooShort,
    /// Parity errors that no single repair made CRC-valid.
    ParityUnfixable,
    /// No parity error, and the CRC does not check.
    CrcUnfixable,
    /// The accepted text does not end in ETX or ETB.
    NoBlockEnd,
}

/// What one character did, beyond the assembler's own state.
#[derive(Clone, Debug, PartialEq, Eq)]
pub enum FramerEvent {
    Nothing,
    /// An inverted SYN was seen: the demodulator must invert its phase.
    FlipPhase,
    /// SOH was seen: a new block starts, signal measurement restarts.
    BlockStarted,
    /// A block was discarded.
    Dropped(DropReason),
    /// A block passed its checks.
    Message(AssembledACARSMessage),
}

/// Per-channel assembler state.
pub struct AcarsFramer {
    pub state: FrameState,
    /// Shift register of the last eight bits, newest in bit 7.
    pub outbits: u8,
    /// Bits still to come before the next character is taken.
    pub nbits: u8,
    /// Block text received so far, parity bits included.
    pub text: Vec<u8>,
    pub parity_errors: u32,
    /// First CRC byte of the current block.
    pub crc0: u8,
    /// Channel frequency in Hz, stamped on every record.
    pub frequency: u32,
    pub numbits: Vec<u8>,
    pub crc_table: Vec<u16>,
}

/// Forces the STX/ETX slot (byte 12) to one of the two values the protocol
/// allows in its low bits.
pub open spec fn fix_block_start(t: Seq<u8>) -> Seq<u8> {
    if t.len() > 12 {
        t.update(12, ((t[12] & (ETX | STX)) | (ETX & STX)) as u8)
    } else {
        t
    }
}

/// Text `t` followed by CRC bytes `c0`, `c1` checks.
pub open spec fn block_ok(t: Seq<u8>, c0: u8, c1: u8) -> bool {
    crc_of(t + seq![c0, c1]) == 0
}

/// `t` with the low bit of character `p` inverted.
pub open spec fn flip_low_bit(t: Seq<u8>, p: int) -> Seq<u8> {
    t.update(p, t[p] ^ 1u8)
}

/// The first repair from position `p` on: the first character with a
/// parity error whose low-bit flip makes the block check.
pub open spec fn repair_from(t: Seq<u8>, c0: u8, c1: u8, p: int) -> Option<Seq<u8>>
    decreases t.len() - p,
{
    if p < 0 || p >= t.len() {
        None
    } else if !odd_parity(t[p]) && block_ok(flip_low_bit(t, p), c0, c1) {
        Some(flip_low_bit(t, p))
    } else {
        repair_from(t, c0, c1, p + 1)
    }
}

/// The text a block is accepted with: as received when its CRC checks,
/// else the first single-character parity repair, if there were parity
/// errors and one works.
pub open spec fn repaired(t: Seq<u8>, err: u32, c0: u8, c1: u8) -> Option<Seq<u8>> {
    if block_ok(t, c0, c1) {
        Some(t)
    } else if err > 0 {
        repair_from(t, c0, c1, 0)
    } else {
        None
    }
}

/// Number of characters of `s` with a parity error.
pub open spec fn even_count(s: Seq<u8>) -> nat
    decreases s.len(),
{
    if s.len() == 0 {
        0
    } else {
        even_count(s.drop_last()) + if odd_parity(s.last()) {
            0nat
        } else {
            1nat
        }
    }
}

/// Each character with its parity bit cleared.
pub open spec fn strip_parity(t: Seq<u8>) -> Seq<u8> {
    Seq::new(t.len(), |i: int| t[i] & 0x7fu8)
}

/// What closing a block with text `t`, `err` parity errors and CRC bytes
/// `c0`, `c1` yields.
pub open spec fn block_outcome(
    t: Seq<u8>,
    err: u32,
    c0: u8,
    c1: u8,
    freq: u32,
    ev: FramerEvent,
) -> bool {
    if t.len() < HEADER_LEN {
        ev == FramerEvent::Dropped(DropReason::TooShort)
    } else {
        match repaired(fix_block_start(t), err, c0, c1) {
            None => ev == FramerEvent::Dropped(
                if err > 0 {
                    DropReason::ParityUnfixable
                } else {
                    DropReason::CrcUnfixable
                },
            ),
            Some(r) => if r.last() != ETX && r.last() != ETB {
                ev == FramerEvent::Dropped(DropReason::NoBlockEnd)
            } else {
                match ev {
                    FramerEvent::Message(m) => {
                        &&& message_fields(m, strip_parity(r), err, freq)
                        &&& (m.block_end == ETX & 0x7fu8 || m.block_end == ETB & 0x7fu8)
                    },
                    _ => false,
                }
            },
        }
    }
}

impl AcarsFramer {
    pub open spec fn wf(&self) -> bool {
        &&& is_numbits_table(self.numbits@)
        &&& is_crc_table(self.crc_table@)
        &&& 1 <= self.nbits <= 8
        &&& self.text@.len() <= MAX_TEXT + 1
        &&& (self.state == FrameState::Txt ==> self.text@.len() <= MAX_TEXT)
        &&& self.parity_errors <= MAXPERR
        &&& (self.state == FrameState::Txt || self.state == FrameState::Crc1 || self.state
            == FrameState::Crc2) ==> self.parity_errors == even_count(self.text@)
    }

    /// Back to hunting for SYN, after a complete or abandoned block.
    pub open spec fn reset_to(self, n: Self) -> bool {
        &&& n.state == FrameState::WaitSyn
        &&& n.nbits == 8
    }

    /// `n` is the assembler `self` after taking character `b`, and `ev`
    /// what that did.
    pub open spec fn byte_transition(self, b: u8, n: Self, ev: FramerEvent) -> bool {
        let keeps_block = n.text@ == self.text@ && n.parity_errors == self.parity_errors
            && n.crc0 == self.crc0;
        &&& n.frequency == self.frequency
        &&& n.numbits@ == self.numbits@
        &&& n.crc_table@ == self.crc_table@
        &&& match self.state {
            FrameState::WaitSyn => if b == SYN {
                n.state == FrameState::Syn2 && n.nbits == 8 && keeps_block && ev
                    == FramerEvent::Nothing
            } else if b == SYN_INVERTED {
                n.state == FrameState::Syn2 && n.nbits == 8 && keeps_block && ev
                    == FramerEvent::FlipPhase
            } else {
                n.state == FrameState::WaitSyn && n.nbits == 1 && keeps_block && ev
                    == FramerEvent::Nothing
            },
            FrameState::Syn2 => if b == SYN {
                n.state == FrameState::Soh1 && n.nbits == 8 && keeps_block && ev
                    == FramerEvent::Nothing
            } else if b == SYN_INVERTED {
                n.state == FrameState::Syn2 && n.nbits == 8 && keeps_block && ev
                    == FramerEvent::FlipPhase
            } else {
                self.reset_to(n) && ev == FramerEvent::Nothing
            },
            FrameState::Soh1 => if b == SOH {
                n.state == FrameState::Txt && n.nbits == 8 && n.text@.len() == 0
                    && n.parity_errors == 0 && ev == FramerEvent::BlockStarted
            } else {
                self.reset_to(n) && ev == FramerEvent::Nothing
            },
            FrameState::Txt => {
                let t = self.text@.push(b);
                let e = self.parity_errors + if odd_parity(b) {
                    0u32
                } else {
                    1u32
                };
                if e > MAXPERR {
                    self.reset_to(n) && ev == FramerEvent::Dropped(DropReason::TooManyParityErrors)
                } else if b == ETX || b == ETB {
                    n.state == FrameState::Crc1 && n.nbits == 8 && n.text@ == t && n.parity_errors
                        == e && ev == FramerEvent::Nothing
                } else if t.len() > 20 && b == DLE {
                    n.state == FrameState::End && n.nbits == 8 && block_outcome(
                        t.subrange(0, t.len() - 3),
                        e as u32,
                        t[t.len() - 3],
                        t[t.len() - 2],
                        self.frequency,
                        ev,
                    )
                } else if t.len() > MAX_TEXT {
                    self.reset_to(n) && ev == FramerEvent::Dropped(DropReason::Overflow)
                } else {
                    n.state == FrameState::Txt && n.nbits == 8 && n.text@ == t && n.parity_errors
                        == e && ev == FramerEvent::Nothing
                }
            },
            FrameState::Crc1 => n.state == FrameState::Crc2 && n.nbits == 8 && n.text@
                == self.text@ && n.parity_errors == self.parity_errors && n.crc0 == b && ev
                == FramerEvent::Nothing,
            FrameState::Crc2 => n.state == FrameState::End && n.nbits == 8 && block_outcome(
                self.text@,
                self.parity_errors,
                self.crc0,
                b,
                self.frequency,
                ev,
            ),
            FrameState::End => self.reset_to(n) && ev == FramerEvent::Nothing,
        }
    }
}

proof fn lemma_block_crc(t: Seq<u8>, c0: u8, c1: u8)
    ensures
        crc_of(t + seq![c0, c1]) == crc_update(crc_update(crc_of(t), c0), c1),
{
    let all = t + seq![c0, c1];
    assert(all.drop_last() == t.push(c0));
    assert(t.push(c0).drop_last() == t);
    assert(all.last() == c1);
    assert(t.push(c0).last() == c0);
    assert(crc_of(t.push(c0)) == crc_update(crc_of(t), c0));
}

/// Each character of `t` with its parity bit cleared.
pub fn strip_parity_bits(t: &Vec<u8>) -> (r: Vec<u8>)
    ensures
        r@ == strip_parity(t@),
{
    let mut r: Vec<u8> = Vec::new();
    let mut i: usize = 0;
    while i < t.len()
        invariant
            i <= t@.len(),
            r@ == strip_parity(t@).subrange(0, i as int),
        decreases t@.len() - i,
    {
        r.push(t[i] & 0x7f);
        i = i + 1;
        assert(r@ =~= strip_parity(t@).subrange(0, i as int));
    }
    assert(r@ =~= strip_parity(t@));
    r
}

impl AcarsFramer {
    /// A fresh assembler for the channel on `frequency` Hz, hunting for SYN.
    pub fn new(frequency: u32) -> (r: Self)
        ensures
            r.wf(),
            r.state == FrameState::WaitSyn,
            r.nbits == 8,
            r.outbits == 0,
            r.text@.len() == 0,
            r.parity_errors == 0,
            r.frequency == frequency,
    {
        AcarsFramer {
            state: FrameState::WaitSyn,
            outbits: 0,
            nbits: 8,
            text: Vec::new(),
            parity_errors: 0,
            crc0: 0,
            frequency,
            numbits: numbits_table(),
            crc_table: crc_table(),
        }
    }

    /// Whether text `t` followed by `c0`, `c1` passes the CRC.
    pub fn block_check(&self, t: &Vec<u8>, c0: u8, c1: u8) -> (r: bool)
        requires
            self.wf(),
        ensures
            r == block_ok(t@, c0, c1),
    {
        let c = crc_ccitt(&self.crc_table, t.as_slice());
        let c = crc_step(&self.crc_table, c, c0);
        let c = crc_step(&self.crc_table, c, c1);
        proof {
            lemma_block_crc(t@, c0, c1);
        }
        c == 0
    }

    /// Validates a finished block, repairs one parity error if that makes it
    /// check, and reads the record out of it.
    pub fn close_block(&self, text: &Vec<u8>, err: u32, c0: u8, c1: u8) -> (ev: FramerEvent)
        requires
            self.wf(),
        ensures
            block_outcome(text@, err, c0, c1, self.frequency, ev),
    {
        if text.len() < HEADER_LEN {
            return FramerEvent::Dropped(DropReason::TooShort);
        }
        let mut t = copy_range(text, 0, text.len());
        assert(t@ =~= text@);
        let v = (t[12] & (ETX | STX)) | (ETX & STX);
        t.set(12, v);
        let ghost ft = t@;
        assert(ft == fix_block_start(text@));
        let mut found = self.block_check(&t, c0, c1);
        if !found && err > 0 {
            let mut p: usize = 0;
            while p < t.len()
                invariant
                    self.wf(),
                    ft.len() == t@.len(),
                    !found ==> t@ == ft,
                    !found ==> repair_from(ft, c0, c1, 0) == repair_from(ft, c0, c1, p as int),
                    found ==> repair_from(ft, c0, c1, 0) == Some(t@),
                decreases t@.len() - p,
            {
                if !found && !parity_ok(&self.numbits, t[p]) {
                    let b = t[p];
                    t.set(p, b ^ 1);
                    assert(t@ == flip_low_bit(ft, p as int));
                    if self.block_check(&t, c0, c1) {
                        found = true;
                    } else {
                        t.set(p, b);
                        assert(t@ =~= ft);
                    }
                }
                p = p + 1;
            }
        }
        if !found {
            return FramerEvent::Dropped(
                if err > 0 {
                    DropReason::ParityUnfixable
                } else {
                    DropReason::CrcUnfixable
                },
            );
        }
        let last = t[t.len() - 1];
        if last != ETX && last != ETB {
            return FramerEvent::Dropped(DropReason::NoBlockEnd);
        }
        let u = strip_parity_bits(&t);
        assert(u@.last() == last & 0x7fu8);
        FramerEvent::Message(parse_fields(&u, err, self.frequency))
    }

    /// Takes one character.
    pub fn put_byte(&mut self, b: u8) -> (ev: FramerEvent)
        requires
            old(self).wf(),
        ensures
            final(self).wf(),
            final(self).outbits == old(self).outbits,
            old(self).byte_transition(b, *final(self), ev),
    {
        match self.state {
            FrameState::WaitSyn => {
                if b == SYN {
                    self.state = FrameState::Syn2;
                    self.nbits = 8;
                    FramerEvent::Nothing
                } else if b == SYN_INVERTED {
                    self.state = FrameState::Syn2;
                    self.nbits = 8;
                    FramerEvent::FlipPhase
                } else {
                    self.nbits = 1;
                    FramerEvent::Nothing
                }
            },
            FrameState::Syn2 => {
                self.nbits = 8;
                if b == SYN {
                    self.state = FrameState::Soh1;
                    FramerEvent::Nothing
                } else if b == SYN_INVERTED {
                    FramerEvent::FlipPhase
                } else {
                    self.state = FrameState::WaitSyn;
                    FramerEvent::Nothing
                }
            },
            FrameState::Soh1 => {
                self.nbits = 8;
                if b == SOH {
                    self.state = FrameState::Txt;
                    self.text = Vec::new();
                    self.parity_errors = 0;
                    assert(even_count(self.text@) == 0);
                    FramerEvent::BlockStarted
                } else {
                    self.state = FrameState::WaitSyn;
                    FramerEvent::Nothing
                }
            },
            FrameState::Txt => {
                self.nbits = 8;
                let e = if parity_ok(&self.numbits, b) {
                    self.parity_errors
                } else {
                    self.parity_errors + 1
                };
                if e > MAXPERR {
                    self.state = FrameState::WaitSyn;
                    return FramerEvent::Dropped(DropReason::TooManyParityErrors);
                }
                let ghost before = self.text@;
                self.text.push(b);
                self.parity_errors = e;
                assert(self.text@.drop_last() == before);
                if b == ETX || b == ETB {
                    self.state = FrameState::Crc1;
                    FramerEvent::Nothing
                } else if self.text.len() > 20 && b == DLE {
                    let l = self.text.len();
                    let c0 = self.text[l - 3];
                    let c1 = self.text[l - 2];
                    let body = copy_range(&self.text, 0, l - 3);
                    self.state = FrameState::End;
                    self.close_block(&body, e, c0, c1)
                } else if self.text.len() > MAX_TEXT {
                    self.state = FrameState::WaitSyn;
                    FramerEvent::Dropped(DropReason::Overflow)
                } else {
                    FramerEvent::Nothing
                }
            },
            FrameState::Crc1 => {
                self.nbits = 8;
                self.crc0 = b;
                self.state = FrameState::Crc2;
                FramerEvent::Nothing
            },
            FrameState::Crc2 => {
                self.nbits = 8;
                let ev = self.close_block(&self.text, self.parity_errors, self.crc0, b);
                self.state = FrameState::End;
                ev
            },
            FrameState::End => {
                self.nbits = 8;
                self.state = FrameState::WaitSyn;
                FramerEvent::Nothing
            },
        }
    }

    /// Takes one demodulated bit, `high` when the soft decision was
    /// positive; every `nbits` bits make a character.
    pub fn put_bit(&mut self, high: bool) -> (ev: FramerEvent)
        requires
            old(self).wf(),
        ensures
            final(self).wf(),
            final(self).outbits == ((old(self).outbits >> 1u8) | (if high {
                0x80u8
            } else {
                0u8
            })) as u8,
            old(self).nbits > 1 ==> {
                &&& final(self).nbits == old(self).nbits - 1
                &&& final(self).state == old(self).state
                &&& final(self).text@ == old(self).text@
                &&& final(self).parity_errors == old(self).parity_errors
                &&& final(self).crc0 == old(self).crc0
                &&& final(self).frequency == old(self).frequency
                &&& ev == FramerEvent::Nothing
            },
            old(self).nbits == 1 ==> old(self).byte_transition(final(self).outbits, *final(self), ev),
    {
        self.outbits = (self.outbits >> 1) | if high {
            0x80
        } else {
            0
        };
        if self.nbits > 1 {
            self.nbits = self.nbits - 1;
            FramerEvent::Nothing
        } else {
            let b = self.outbits;
            self.put_byte(b)
        }
    }
}

/// A record comes out of a character exactly when that character closes a
/// block (its second CRC byte, or a DEL after a damaged ETX) whose text is
/// at least a header long, checks as received or after one parity repair,
/// and then ends in ETX or ETB. No other character yields one.
pub proof fn lemma_message_iff_valid_block(f: AcarsFramer, b: u8, n: AcarsFramer, ev: FramerEvent)
    requires
        f.wf(),
        f.byte_transition(b, n, ev),
    ensures
        f.state == FrameState::Crc2 ==> ((ev is Message) <==> (f.text@.len() >= HEADER_LEN
            && match repaired(fix_block_start(f.text@), f.parity_errors, f.crc0, b) {
            Some(r) => r.last() == ETX || r.last() == ETB,
            None => false,
        })),
        f.state != FrameState::Crc2 && f.state != FrameState::Txt ==> !(ev is Message),
        f.state == FrameState::Txt && (ev is Message) ==> b == DLE,
{
}

/// The parity-error count a record carries is the number of characters of
/// its block text, as received, whose parity is even.
pub proof fn lemma_record_counts_parity_errors(
    f: AcarsFramer,
    b: u8,
    n: AcarsFramer,
    ev: FramerEvent,
)
    requires
        f.wf(),
        f.byte_transition(b, n, ev),
        f.state == FrameState::Crc2,
    ensures
        ev matches FramerEvent::Message(m) ==> m.parity_errors == even_count(f.text@),
{
}

} // verus!
