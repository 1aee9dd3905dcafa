//! Host and device logic of the Mono Gateway DK UART recovery tool: the
//! wire protocol (frames, SLIP, CRC32), the host's argument and range
//! planning, and the recovery stages' request handling.

pub mod protocol;
pub mod slip;
pub mod crc;
pub mod text;
pub mod error;
pub mod ranges;
pub mod args;
pub mod baud;
pub mod session;
pub mod stage;
pub mod stage1;
pub mod qspi;
pub mod dialogue;
pub mod restore;
