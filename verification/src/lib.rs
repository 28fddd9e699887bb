//! Bit-serial cyclic redundancy checks of 8, 16, 32, 64 and 128 bits.
//!
//! Every engine holds a register and a generator polynomial of its own width.
//! Bytes are folded into the register most significant bit first; the reported
//! checksum is the complement of the register.

pub mod checksum;
pub mod crc128;
pub mod crc16;
pub mod crc32;
pub mod crc64;
pub mod crc8;
pub mod register;

pub use checksum::CRC;
pub use crc128::CRC128;
pub use crc16::CRC16;
pub use crc32::CRC32;
pub use crc64::CRC64;
pub use crc8::CRC8;
pub use register::Register;
