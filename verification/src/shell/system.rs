//! System commands: uname and diskinfo. (Rebooting and powering off are
//! port writes that the kernel binary makes.)
use super::{colored, emit_byte, emit_str, Output};
use crate::drivers::ata::{byte_to_hex, hex_digit};
use crate::framebuffer::{Color, GREEN, RED, WHITE, YELLOW};
use vstd::prelude::*;
use vstd::string::StringSliceAdditionalSpecFns;

verus! {

/// The text of `uname`.
pub open spec fn uname_text() -> Seq<(u8, Color)> {
    colored("Rood".spec_bytes(), GREEN) + colored(seq![32u8], WHITE) + colored("0.1.0".spec_bytes(), WHITE)
        + colored(seq![32u8], WHITE) + colored("x86_64".spec_bytes(), WHITE) + colored(seq![10u8], WHITE)
}

/// The system's name, version and architecture.
pub fn uname() -> (out: Output)
    ensures
        out@ == uname_text(),
{
    let mut out: Output = Vec::new();
    emit_str(&mut out, "Rood", GREEN);
    emit_byte(&mut out, 32, WHITE);
    emit_str(&mut out, "0.1.0", WHITE);
    emit_byte(&mut out, 32, WHITE);
    emit_str(&mut out, "x86_64", WHITE);
    emit_byte(&mut out, 10, WHITE);
    assert(out@ =~= uname_text());
    out
}

/// `Y` or `N`.
pub open spec fn yes_no(b: bool) -> u8 {
    if b {
        89
    } else {
        78
    }
}

/// What `diskinfo -v` prints: the raw status byte in hex, then whether
/// the master and the slave drive answer.
pub open spec fn diskinfo_verbose_text(status: u8, master: bool, slave: bool) -> Seq<(u8, Color)> {
    colored("Raw status: ".spec_bytes(), WHITE) + colored(seq![hex_digit((status / 16) as int)], YELLOW)
        + colored(seq![hex_digit((status % 16) as int)], YELLOW) + colored(seq![10u8], WHITE)
        + colored("Master: ".spec_bytes(), WHITE) + colored(seq![yes_no(master)], WHITE) + colored(
        seq![10u8],
        WHITE,
    ) + colored("Slave:  ".spec_bytes(), WHITE) + colored(seq![yes_no(slave)], WHITE) + colored(
        seq![10u8],
        WHITE,
    )
}

/// What `diskinfo` prints: the drive in use (the slave is preferred) and
/// the format, or that there is none.
pub open spec fn diskinfo_text(master: bool, slave: bool) -> Seq<(u8, Color)> {
    if slave {
        colored("Disk:   ATA Primary Slave\n".spec_bytes(), GREEN) + colored("Status: OK\n".spec_bytes(), GREEN)
            + colored("FS:     ROOD format\n".spec_bytes(), YELLOW) + colored("Sector: 512 bytes\n".spec_bytes(), WHITE)
    } else if master {
        colored("Disk:   ATA Primary Master\n".spec_bytes(), GREEN) + colored("Status: OK\n".spec_bytes(), GREEN)
            + colored("FS:     ROOD format\n".spec_bytes(), YELLOW) + colored("Sector: 512 bytes\n".spec_bytes(), WHITE)
    } else {
        colored("No disk detected\n".spec_bytes(), RED)
    }
}

/// Whether `diskinfo` was asked for the verbose form: its first argument is `-v`.
pub open spec fn wants_verbose(args: Seq<Seq<u8>>) -> bool {
    args.len() > 0 && args[0] == "-v".spec_bytes()
}

/// `diskinfo [-v]`, given what the drives answered: the status register
/// (read for the verbose form), and whether the master (0xA0) and the
/// slave (0xB0) drive were detected.
pub fn diskinfo(args: &Vec<Vec<u8>>, status: u8, master: bool, slave: bool) -> (out: Output)
    ensures
        wants_verbose(super::views(args@)) ==> out@ == diskinfo_verbose_text(status, master, slave),
        !wants_verbose(super::views(args@)) ==> out@ == diskinfo_text(master, slave),
{
    let mut out: Output = Vec::new();
    let verbose = args.len() > 0 && crate::bytes::bytes_eq(args[0].as_slice(), "-v".as_bytes());
    if verbose {
        let hex = byte_to_hex(status);
        emit_str(&mut out, "Raw status: ", WHITE);
        emit_byte(&mut out, hex[0], YELLOW);
        emit_byte(&mut out, hex[1], YELLOW);
        emit_byte(&mut out, 10, WHITE);
        emit_str(&mut out, "Master: ", WHITE);
        emit_byte(&mut out, if master { 89u8 } else { 78u8 }, WHITE);
        emit_byte(&mut out, 10, WHITE);
        emit_str(&mut out, "Slave:  ", WHITE);
        emit_byte(&mut out, if slave { 89u8 } else { 78u8 }, WHITE);
        emit_byte(&mut out, 10, WHITE);
        assert(out@ =~= diskinfo_verbose_text(status, master, slave));
        return out;
    }
    if slave {
        emit_str(&mut out, "Disk:   ATA Primary Slave\n", GREEN);
        emit_str(&mut out, "Status: OK\n", GREEN);
    } else if master {
        emit_str(&mut out, "Disk:   ATA Primary Master\n", GREEN);
        emit_str(&mut out, "Status: OK\n", GREEN);
    } else {
        emit_str(&mut out, "No disk detected\n", RED);
        assert(out@ =~= diskinfo_text(master, slave));
        return out;
    }
    emit_str(&mut out, "FS:     ROOD format\n", YELLOW);
    emit_str(&mut out, "Sector: 512 bytes\n", WHITE);
    assert(out@ =~= diskinfo_text(master, slave));
    out
}

} // verus!
