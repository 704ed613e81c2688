//! Driver logic: port handles, ATA sector encoding and status decisions,
//! and the PS/2 line editor.
pub mod ata;
pub mod ata_protocol;
pub mod port;
pub mod ps2;
