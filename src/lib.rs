//! ACARS reception core: channel planning for a multi-channel dongle, the
//! CRC-16/CCITT and parity rules of the air-band datalink, and the frame
//! assembler that turns demodulated bits into decoded messages.

pub mod decoders;
pub mod config;
pub mod device;
pub mod crc;
pub mod parity;
pub mod message;
pub mod framer;
