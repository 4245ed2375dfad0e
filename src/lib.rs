//! Host-side driver for the STM32 system bootloader, over UART or SPI.
//!
//! The protocol engines are generic over a [`link::Link`], a plain duplex
//! byte channel. They record every completed exchange in ghost transcripts,
//! and count the link operations that failed, so that their contracts can
//! state what went over the wire and, for a run without link failures,
//! which result each answer of the device leads to.

pub mod wire;
pub mod dfuloader;
pub mod link;
pub mod serial;
pub mod spi;
