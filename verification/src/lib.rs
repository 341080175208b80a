//! Decoding of iNES cartridge headers and splitting of ROM images into
//! their segments: header, trainer, program banks, graphics banks and the
//! matching code/data-log banks.

pub mod decimal;
pub mod error;
pub mod format;
pub mod header;
pub mod plan;
pub mod segment;
pub mod splitter;
