//! Decoder kinds and the sampling constants each one works at.

use vstd::prelude::*;

verus! {

/// Output sample rate of the channelizer for ACARS, in samples per second.
pub const INTRATE: u32 = 12500;
/// Magnitude samples handed to a demodulator per device buffer.
pub const RTLOUTBUFSZ: usize = 1024;

/// The decoders a device can run.
#[derive(Clone, Copy, Debug, PartialEq, Eq, Structural)]
pub enum ValidDecoderType {
    ACARS,
    VDL2,
    HFDL,
}

impl ValidDecoderType {
    pub open spec fn intrate(&self) -> u32 {
        if *self == ValidDecoderType::ACARS {
            INTRATE
        } else {
            0
        }
    }

    /// Channel sample rate of this decoder; 0 where it is not implemented.
    pub fn get_intrate(&self) -> (r: u32)
        ensures
            r == self.intrate(),
    {
        match self {
            ValidDecoderType::ACARS => INTRATE,
            ValidDecoderType::VDL2 => 0,
            ValidDecoderType::HFDL => 0,
        }
    }

    /// Magnitude samples per buffer for this decoder; 0 where it is not
    /// implemented.
    pub fn get_rtloutbufsz(&self) -> (r: usize)
        ensures
            r == (if *self == ValidDecoderType::ACARS {
                RTLOUTBUFSZ
            } else {
                0
            }),
    {
        match self {
            ValidDecoderType::ACARS => RTLOUTBUFSZ,
            ValidDecoderType::VDL2 => 0,
            ValidDecoderType::HFDL => 0,
        }
    }
}

} // verus!
