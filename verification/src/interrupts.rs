//! Interrupt handling logic: the 8259 PIC programming sequence, the timer
//! tick count, and the report printed for a CPU exception.
use crate::drivers::ata::hex_digit;
use crate::drivers::port::{Port, PortWrite};
use crate::framebuffer::{Color, RED, WHITE, YELLOW};
use crate::shell::{colored, emit, emit_byte, emit_str, Output};
use vstd::prelude::*;
use vstd::string::StringSliceAdditionalSpecFns;

verus! {

/// Vector of IRQ 0 (the timer); the master PIC's IRQs follow it.
pub const PIC1_OFFSET: u8 = 32;
/// Vector of IRQ 8; the slave PIC's IRQs follow it.
pub const PIC2_OFFSET: u8 = 40;
/// End-of-interrupt command.
pub const PIC_EOI: u8 = 0x20;

pub fn pic1_cmd() -> (p: PortWrite<u8>)
    ensures
        p.number() == 0x20,
{
    PortWrite::new(0x20)
}

pub fn pic1_data() -> (p: Port<u8>)
    ensures
        p.number() == 0x21,
{
    Port::new(0x21)
}

pub fn pic2_cmd() -> (p: PortWrite<u8>)
    ensures
        p.number() == 0xA0,
{
    PortWrite::new(0xA0)
}

pub fn pic2_data() -> (p: Port<u8>)
    ensures
        p.number() == 0xA1,
{
    Port::new(0xA1)
}

/// The port writes that initialise both PICs, in order: start
/// initialisation, set the vector offsets, wire the cascade, select 8086
/// mode, then mask every IRQ but the timer and the keyboard.
pub open spec fn pic_init_writes() -> Seq<(u16, u8)> {
    seq![
        (0x20u16, 0x11u8),
        (0xA0u16, 0x11u8),
        (0x21u16, 32u8),
        (0xA1u16, 40u8),
        (0x21u16, 4u8),
        (0xA1u16, 2u8),
        (0x21u16, 1u8),
        (0xA1u16, 1u8),
        (0x21u16, 0xFCu8),
        (0xA1u16, 0xFFu8),
    ]
}

/// The (port, value) writes that initialise the PICs.
pub fn init_pic() -> (w: Vec<(u16, u8)>)
    ensures
        w@ == pic_init_writes(),
{
    let mut w: Vec<(u16, u8)> = Vec::new();
    w.push((0x20, 0x11));
    w.push((0xA0, 0x11));
    w.push((0x21, PIC1_OFFSET));
    w.push((0xA1, PIC2_OFFSET));
    w.push((0x21, 4));
    w.push((0xA1, 2));
    w.push((0x21, 0x01));
    w.push((0xA1, 0x01));
    w.push((0x21, 0xFC));
    w.push((0xA1, 0xFF));
    assert(w@ =~= pic_init_writes());
    w
}

/// The write that acknowledges an interrupt of the master PIC.
pub fn eoi_master() -> (w: Vec<(u16, u8)>)
    ensures
        w@ == seq![(0x20u16, PIC_EOI)],
{
    let mut w: Vec<(u16, u8)> = Vec::new();
    w.push((0x20, PIC_EOI));
    assert(w@ =~= seq![(0x20u16, PIC_EOI)]);
    w
}

/// The writes that acknowledge an interrupt of the slave PIC: slave first,
/// then master.
pub fn eoi_slave() -> (w: Vec<(u16, u8)>)
    ensures
        w@ == seq![(0xA0u16, PIC_EOI), (0x20u16, PIC_EOI)],
{
    let mut w: Vec<(u16, u8)> = Vec::new();
    w.push((0xA0, PIC_EOI));
    w.push((0x20, PIC_EOI));
    assert(w@ =~= seq![(0xA0u16, PIC_EOI), (0x20u16, PIC_EOI)]);
    w
}

/// The tick count after one more timer interrupt.
pub fn tick(ticks: u64) -> (r: u64)
    requires
        ticks < u64::MAX,
    ensures
        r == ticks + 1,
{
    ticks + 1
}

/// Whole seconds since boot for a tick count, the timer running at 18.2 Hz
/// (the PIT's default rate): `ticks * 10 / 182`, rounded down.
pub fn uptime_secs(ticks: u64) -> (r: u64)
    ensures
        r == ticks as int * 10 / 182,
{
    let q = ticks / 91;
    let rem = ticks % 91;
    assert(ticks as int * 10 / 182 == 5 * (q as int) + (5 * (rem as int)) / 91 && 5 * (q as int) + (5 * (rem as int)) / 91 <= u64::MAX) by (nonlinear_arith)
        requires
            q == ticks / 91,
            rem == ticks % 91,
            ticks <= u64::MAX,
    {
        assert(ticks as int == 91 * (q as int) + rem as int);
        assert(ticks as int * 10 / 182 == (5 * ticks as int) / 91);
        assert(5 * (ticks as int) == 91 * (5 * q as int) + 5 * rem as int);
    }
    q * 5 + rem * 5 / 91
}

/// The sixteen hex digits of a 64-bit value, most significant first.
pub open spec fn hex16(val: u64) -> Seq<u8> {
    Seq::new(16, |i: int| hex_digit(((val >> ((60 - 4 * i) as u64)) & 0xF) as int))
}

fn hex_char(n: u64) -> (r: u8)
    requires
        n < 16,
    ensures
        r == hex_digit(n as int),
{
    if n < 10 {
        48 + n as u8
    } else {
        55 + n as u8
    }
}

/// `val` in hex, sixteen digits, in yellow.
pub fn print_hex_u64(val: u64) -> (out: Output)
    ensures
        out@ == colored(hex16(val), YELLOW),
{
    let mut out: Output = Vec::new();
    let mut j: usize = 0;
    while j < 16
        invariant
            j <= 16,
            out@ == colored(hex16(val).take(j as int), YELLOW),
        decreases 16 - j,
    {
        let shift: u64 = (60 - 4 * j) as u64;
        let nibble = (val >> shift) & 0xF;
        assert(nibble < 16) by (bit_vector)
            requires
                nibble == (val >> shift) & 0xF,
        ;
        let ghost prev = out@;
        emit_byte(&mut out, hex_char(nibble), YELLOW);
        assert(hex16(val).take(j + 1) =~= hex16(val).take(j as int).push(hex16(val)[j as int]));
        assert(out@ =~= colored(hex16(val).take(j + 1), YELLOW));
        j = j + 1;
    }
    assert(hex16(val).take(16) =~= hex16(val));
    out
}

/// A labelled hex line: `label` in `color`, the sixteen digits in yellow,
/// then a newline.
pub open spec fn hex_line(label: Seq<u8>, color: Color, val: u64) -> Seq<(u8, Color)> {
    colored(label, color) + colored(hex16(val), YELLOW) + colored(seq![10u8], WHITE)
}

/// The report of a CPU exception: its name, then the instruction pointer,
/// code segment and stack segment of the interrupted code.
pub open spec fn exception_text(name: Seq<u8>, ip: u64, cs: u64, ss: u64) -> Seq<(u8, Color)> {
    colored("\n[EXCEPTION] ".spec_bytes(), RED) + colored(name, RED) + colored(seq![10u8], WHITE)
        + hex_line("IP:  0x".spec_bytes(), YELLOW, ip) + hex_line("CS:  0x".spec_bytes(), YELLOW, cs)
        + hex_line("SS:  0x".spec_bytes(), YELLOW, ss)
}

fn emit_hex_line(out: &mut Output, label: &str, color: Color, val: u64)
    ensures
        final(out)@ == old(out)@ + hex_line(label.spec_bytes(), color, val),
{
    emit_str(out, label, color);
    let digits = print_hex_u64(val);
    emit_output(out, &digits);
    emit_byte(out, 10, WHITE);
    assert(out@ =~= old(out)@ + hex_line(label.spec_bytes(), color, val));
}

/// Appends coloured text.
pub fn emit_output(out: &mut Output, more: &Output)
    ensures
        final(out)@ == old(out)@ + more@,
{
    let ghost before = out@;
    let mut i: usize = 0;
    while i < more.len()
        invariant
            i <= more@.len(),
            out@ == before + more@.take(i as int),
        decreases more@.len() - i,
    {
        out.push(more[i]);
        i = i + 1;
        assert(out@ =~= before + more@.take(i as int));
    }
    assert(more@.take(more@.len() as int) =~= more@);
}

/// The report of a CPU exception.
pub fn print_exception(name: &[u8], ip: u64, cs: u64, ss: u64) -> (out: Output)
    ensures
        out@ == exception_text(name@, ip, cs, ss),
{
    let mut out: Output = Vec::new();
    emit_str(&mut out, "\n[EXCEPTION] ", RED);
    emit(&mut out, name, RED);
    emit_byte(&mut out, 10, WHITE);
    emit_hex_line(&mut out, "IP:  0x", YELLOW, ip);
    emit_hex_line(&mut out, "CS:  0x", YELLOW, cs);
    emit_hex_line(&mut out, "SS:  0x", YELLOW, ss);
    assert(out@ =~= exception_text(name@, ip, cs, ss));
    out
}

/// The report of a general protection fault: the exception report, then
/// the error code.
pub fn general_protection_report(ip: u64, cs: u64, ss: u64, error_code: u64) -> (out: Output)
    ensures
        out@ == exception_text("General Protection Fault (#GP)".spec_bytes(), ip, cs, ss) + hex_line(
            "Error: 0x".spec_bytes(),
            RED,
            error_code,
        ),
{
    let mut out = print_exception("General Protection Fault (#GP)".as_bytes(), ip, cs, ss);
    emit_hex_line(&mut out, "Error: 0x", RED, error_code);
    out
}

/// The report of a page fault: the exception report, then the faulting
/// address (CR2) and the error code.
pub fn page_fault_report(ip: u64, cs: u64, ss: u64, address: u64, error_code: u64) -> (out: Output)
    ensures
        out@ == exception_text("Page Fault (#PF)".spec_bytes(), ip, cs, ss) + hex_line(
            "Addr: 0x".spec_bytes(),
            RED,
            address,
        ) + hex_line("Code: 0x".spec_bytes(), RED, error_code),
{
    let mut out = print_exception("Page Fault (#PF)".as_bytes(), ip, cs, ss);
    emit_hex_line(&mut out, "Addr: 0x", RED, address);
    emit_hex_line(&mut out, "Code: 0x", RED, error_code);
    out
}

} // verus!
