//! The ATA driver's register conversations as step machines: IDENTIFY,
//! a sector read and a sector write.
//!
//! Each machine is a function from its state and the answer to the last
//! port access it asked for (the value read, for a read) to its next state
//! and its next action: another port access, or the result. The kernel
//! makes the accesses and feeds the answers back.
use super::ata::{
    identify_busy_step, identify_step, is_atapi_signature, is_busy, no_drive, sector_from_words, wait_drq_step,
    word_byte, write_failed, AtaError, Identify, LbaSelect, Wait, CMD_FLUSH, CMD_IDENTIFY, CMD_READ, CMD_WRITE,
    POLL_LIMIT, SECTOR_SIZE,
};
use vstd::prelude::*;

verus! {

pub const PORT_DATA: u16 = 0x1F0;
pub const PORT_SECTOR_COUNT: u16 = 0x1F2;
pub const PORT_LBA_LOW: u16 = 0x1F3;
pub const PORT_LBA_MID: u16 = 0x1F4;
pub const PORT_LBA_HIGH: u16 = 0x1F5;
pub const PORT_DRIVE: u16 = 0x1F6;
/// The status register when read, the command register when written.
pub const PORT_STATUS_COMMAND: u16 = 0x1F7;

/// A port access that a driver asks for.
#[derive(PartialEq, Eq, Structural, Clone, Copy, Debug)]
pub enum PortOp {
    In8 { port: u16 },
    In16 { port: u16 },
    Out8 { port: u16, byte: u8 },
    Out16 { port: u16, word: u16 },
}

pub open spec fn status_read() -> PortOp {
    PortOp::In8 { port: PORT_STATUS_COMMAND }
}

/// Where IDENTIFY stands: the access it asked for last, whose answer the
/// next step reads.
#[derive(PartialEq, Eq, Structural, Clone, Copy, Debug)]
pub enum IdentifyState {
    /// Nothing asked yet; the drive-select value to probe.
    Begin { drive: u8 },
    /// The drive was selected.
    Selected,
    /// `reads` of the four settling status reads were asked for.
    Settle { reads: u8 },
    ClearedLow,
    ClearedMid,
    ClearedHigh,
    ClearedCount,
    /// IDENTIFY was sent.
    Commanded,
    /// The first status after the command was asked for.
    FirstStatus,
    /// A status read of the wait for BSY to clear, after `earlier` others.
    Busy { earlier: u32 },
    /// LBA mid was asked for.
    Mid,
    /// LBA high was asked for; LBA mid read `mid`.
    High { mid: u8 },
    /// A status read of the wait for DRQ, after `earlier` others.
    Drq { earlier: u32 },
    /// `words` of the 256 identification words were asked for.
    Drain { words: u32 },
    /// The answer is known.
    Finished { present: bool },
}

/// What IDENTIFY does next.
#[derive(PartialEq, Eq, Structural, Clone, Copy, Debug)]
pub enum IdentifyAction {
    Io(PortOp),
    /// Whether a non-packet ATA drive answered.
    Done(bool),
}

/// The states the machine can be in.
pub open spec fn identify_state_ok(st: IdentifyState) -> bool {
    match st {
        IdentifyState::Settle { reads } => 1 <= reads <= 4,
        IdentifyState::Busy { earlier } => earlier < POLL_LIMIT,
        IdentifyState::Drq { earlier } => earlier < POLL_LIMIT,
        IdentifyState::Drain { words } => 1 <= words <= 256,
        _ => true,
    }
}

/// Whether the step from `st` reads the answer of a byte read.
pub open spec fn identify_reads_answer(st: IdentifyState) -> bool {
    match st {
        IdentifyState::FirstStatus => true,
        IdentifyState::Busy { .. } => true,
        IdentifyState::Mid => true,
        IdentifyState::High { .. } => true,
        IdentifyState::Drq { .. } => true,
        _ => false,
    }
}

/// One step of IDENTIFY on the primary channel: select the drive, read the
/// status four times to let it settle, clear LBA low/mid/high and the sector
/// count, send IDENTIFY (0xEC); no drive if the status then reads 0 or 0xFF;
/// wait (at most 100000 reads) for BSY to clear; no drive if LBA mid/high
/// carry a packet-device signature; wait for DRQ (an error means no drive;
/// after 100000 reads it goes on); drain the 256 identification words; the
/// drive is there.
pub open spec fn identify_spec(st: IdentifyState, ev: Option<u8>) -> (IdentifyState, IdentifyAction) {
    let status = status_read();
    let a = ev.unwrap();
    match st {
        IdentifyState::Begin { drive } => (
            IdentifyState::Selected,
            IdentifyAction::Io(PortOp::Out8 { port: PORT_DRIVE, byte: drive }),
        ),
        IdentifyState::Selected => (IdentifyState::Settle { reads: 1 }, IdentifyAction::Io(status)),
        IdentifyState::Settle { reads } => if reads < 4 {
            (IdentifyState::Settle { reads: (reads + 1) as u8 }, IdentifyAction::Io(status))
        } else {
            (IdentifyState::ClearedLow, IdentifyAction::Io(PortOp::Out8 { port: PORT_LBA_LOW, byte: 0 }))
        },
        IdentifyState::ClearedLow => (
            IdentifyState::ClearedMid,
            IdentifyAction::Io(PortOp::Out8 { port: PORT_LBA_MID, byte: 0 }),
        ),
        IdentifyState::ClearedMid => (
            IdentifyState::ClearedHigh,
            IdentifyAction::Io(PortOp::Out8 { port: PORT_LBA_HIGH, byte: 0 }),
        ),
        IdentifyState::ClearedHigh => (
            IdentifyState::ClearedCount,
            IdentifyAction::Io(PortOp::Out8 { port: PORT_SECTOR_COUNT, byte: 0 }),
        ),
        IdentifyState::ClearedCount => (
            IdentifyState::Commanded,
            IdentifyAction::Io(PortOp::Out8 { port: PORT_STATUS_COMMAND, byte: CMD_IDENTIFY }),
        ),
        IdentifyState::Commanded => (IdentifyState::FirstStatus, IdentifyAction::Io(status)),
        IdentifyState::FirstStatus => if a == 0 || a == 0xFF {
            (IdentifyState::Finished { present: false }, IdentifyAction::Done(false))
        } else {
            (IdentifyState::Busy { earlier: 0 }, IdentifyAction::Io(status))
        },
        IdentifyState::Busy { earlier } => if a & 0x80 != 0 && earlier + 1 < POLL_LIMIT {
            (IdentifyState::Busy { earlier: (earlier + 1) as u32 }, IdentifyAction::Io(status))
        } else {
            (IdentifyState::Mid, IdentifyAction::Io(PortOp::In8 { port: PORT_LBA_MID }))
        },
        IdentifyState::Mid => (IdentifyState::High { mid: a }, IdentifyAction::Io(PortOp::In8 { port: PORT_LBA_HIGH })),
        IdentifyState::High { mid } => if (mid == 0x14 && a == 0xEB) || (mid == 0x69 && a == 0x96) {
            (IdentifyState::Finished { present: false }, IdentifyAction::Done(false))
        } else {
            (IdentifyState::Drq { earlier: 0 }, IdentifyAction::Io(status))
        },
        IdentifyState::Drq { earlier } => if a & 0x01 != 0 {
            (IdentifyState::Finished { present: false }, IdentifyAction::Done(false))
        } else if a & 0x08 != 0 || earlier + 1 >= POLL_LIMIT {
            (IdentifyState::Drain { words: 1 }, IdentifyAction::Io(PortOp::In16 { port: PORT_DATA }))
        } else {
            (IdentifyState::Drq { earlier: (earlier + 1) as u32 }, IdentifyAction::Io(status))
        },
        IdentifyState::Drain { words } => if words < 256 {
            (IdentifyState::Drain { words: (words + 1) as u32 }, IdentifyAction::Io(PortOp::In16 { port: PORT_DATA }))
        } else {
            (IdentifyState::Finished { present: true }, IdentifyAction::Done(true))
        },
        IdentifyState::Finished { present } => (st, IdentifyAction::Done(present)),
    }
}

/// How many more steps IDENTIFY can take from `st` before it is done.
pub open spec fn identify_rank(st: IdentifyState) -> nat {
    let l = POLL_LIMIT as nat;
    match st {
        IdentifyState::Finished { .. } => 0,
        IdentifyState::Drain { words } => (257 - words) as nat,
        IdentifyState::Drq { earlier } => (257 + (l - earlier)) as nat,
        IdentifyState::High { .. } => 258 + l,
        IdentifyState::Mid => 259 + l,
        IdentifyState::Busy { earlier } => (259 + l + (l - earlier)) as nat,
        IdentifyState::FirstStatus => 260 + 2 * l,
        IdentifyState::Commanded => 261 + 2 * l,
        IdentifyState::ClearedCount => 262 + 2 * l,
        IdentifyState::ClearedHigh => 263 + 2 * l,
        IdentifyState::ClearedMid => 264 + 2 * l,
        IdentifyState::ClearedLow => 265 + 2 * l,
        IdentifyState::Settle { reads } => (266 + 2 * l + (4 - reads)) as nat,
        IdentifyState::Selected => 270 + 2 * l,
        IdentifyState::Begin { .. } => 271 + 2 * l,
    }
}

/// One step of IDENTIFY. `ev` is the value that the last access read, when
/// that access was a byte read.
pub fn identify_next(st: IdentifyState, ev: Option<u8>) -> (r: (IdentifyState, IdentifyAction))
    requires
        identify_state_ok(st),
        identify_reads_answer(st) ==> ev is Some,
    ensures
        r == identify_spec(st, ev),
        identify_state_ok(r.0),
        r.1 is Io ==> identify_rank(r.0) < identify_rank(st),
        r.1 is Done <==> r.0 is Finished,
{
    let status = PortOp::In8 { port: PORT_STATUS_COMMAND };
    match st {
        IdentifyState::Begin { drive } => (
            IdentifyState::Selected,
            IdentifyAction::Io(PortOp::Out8 { port: PORT_DRIVE, byte: drive }),
        ),
        IdentifyState::Selected => (IdentifyState::Settle { reads: 1 }, IdentifyAction::Io(status)),
        IdentifyState::Settle { reads } => {
            if reads < 4 {
                (IdentifyState::Settle { reads: reads + 1 }, IdentifyAction::Io(status))
            } else {
                (IdentifyState::ClearedLow, IdentifyAction::Io(PortOp::Out8 { port: PORT_LBA_LOW, byte: 0 }))
            }
        },
        IdentifyState::ClearedLow => (
            IdentifyState::ClearedMid,
            IdentifyAction::Io(PortOp::Out8 { port: PORT_LBA_MID, byte: 0 }),
        ),
        IdentifyState::ClearedMid => (
            IdentifyState::ClearedHigh,
            IdentifyAction::Io(PortOp::Out8 { port: PORT_LBA_HIGH, byte: 0 }),
        ),
        IdentifyState::ClearedHigh => (
            IdentifyState::ClearedCount,
            IdentifyAction::Io(PortOp::Out8 { port: PORT_SECTOR_COUNT, byte: 0 }),
        ),
        IdentifyState::ClearedCount => (
            IdentifyState::Commanded,
            IdentifyAction::Io(PortOp::Out8 { port: PORT_STATUS_COMMAND, byte: CMD_IDENTIFY }),
        ),
        IdentifyState::Commanded => (IdentifyState::FirstStatus, IdentifyAction::Io(status)),
        IdentifyState::FirstStatus => {
            let s = ev.unwrap();
            if no_drive(s) {
                (IdentifyState::Finished { present: false }, IdentifyAction::Done(false))
            } else {
                (IdentifyState::Busy { earlier: 0 }, IdentifyAction::Io(status))
            }
        },
        IdentifyState::Busy { earlier } => {
            let s = ev.unwrap();
            if identify_busy_step(earlier, s) {
                (IdentifyState::Busy { earlier: earlier + 1 }, IdentifyAction::Io(status))
            } else {
                (IdentifyState::Mid, IdentifyAction::Io(PortOp::In8 { port: PORT_LBA_MID }))
            }
        },
        IdentifyState::Mid => {
            let m = ev.unwrap();
            (IdentifyState::High { mid: m }, IdentifyAction::Io(PortOp::In8 { port: PORT_LBA_HIGH }))
        },
        IdentifyState::High { mid } => {
            let h = ev.unwrap();
            if is_atapi_signature(mid, h) {
                (IdentifyState::Finished { present: false }, IdentifyAction::Done(false))
            } else {
                (IdentifyState::Drq { earlier: 0 }, IdentifyAction::Io(status))
            }
        },
        IdentifyState::Drq { earlier } => {
            let s = ev.unwrap();
            match identify_step(earlier, s) {
                Identify::Absent => (IdentifyState::Finished { present: false }, IdentifyAction::Done(false)),
                Identify::Present => (
                    IdentifyState::Drain { words: 1 },
                    IdentifyAction::Io(PortOp::In16 { port: PORT_DATA }),
                ),
                Identify::Again => (IdentifyState::Drq { earlier: earlier + 1 }, IdentifyAction::Io(status)),
            }
        },
        IdentifyState::Drain { words } => {
            if words < 256 {
                (IdentifyState::Drain { words: words + 1 }, IdentifyAction::Io(PortOp::In16 { port: PORT_DATA }))
            } else {
                (IdentifyState::Finished { present: true }, IdentifyAction::Done(true))
            }
        },
        IdentifyState::Finished { present } => (st, IdentifyAction::Done(present)),
    }
}

/// IDENTIFY begins with the same ten accesses whatever the drive answers:
/// select the drive, read the status four times, clear LBA low, mid, high
/// and the sector count, send 0xEC.
pub proof fn lemma_identify_prologue(drive: u8, answers: Seq<Option<u8>>)
    requires
        answers.len() == 10,
    ensures
        ({
            let s0 = IdentifyState::Begin { drive };
            let (s1, a1) = identify_spec(s0, answers[0]);
            let (s2, a2) = identify_spec(s1, answers[1]);
            let (s3, a3) = identify_spec(s2, answers[2]);
            let (s4, a4) = identify_spec(s3, answers[3]);
            let (s5, a5) = identify_spec(s4, answers[4]);
            let (s6, a6) = identify_spec(s5, answers[5]);
            let (s7, a7) = identify_spec(s6, answers[6]);
            let (s8, a8) = identify_spec(s7, answers[7]);
            let (s9, a9) = identify_spec(s8, answers[8]);
            let (s10, a10) = identify_spec(s9, answers[9]);
            &&& a1 == IdentifyAction::Io(PortOp::Out8 { port: PORT_DRIVE, byte: drive })
            &&& a2 == IdentifyAction::Io(status_read())
            &&& a3 == IdentifyAction::Io(status_read())
            &&& a4 == IdentifyAction::Io(status_read())
            &&& a5 == IdentifyAction::Io(status_read())
            &&& a6 == IdentifyAction::Io(PortOp::Out8 { port: PORT_LBA_LOW, byte: 0 })
            &&& a7 == IdentifyAction::Io(PortOp::Out8 { port: PORT_LBA_MID, byte: 0 })
            &&& a8 == IdentifyAction::Io(PortOp::Out8 { port: PORT_LBA_HIGH, byte: 0 })
            &&& a9 == IdentifyAction::Io(PortOp::Out8 { port: PORT_SECTOR_COUNT, byte: 0 })
            &&& a10 == IdentifyAction::Io(PortOp::Out8 { port: PORT_STATUS_COMMAND, byte: CMD_IDENTIFY })
            &&& s10 == IdentifyState::Commanded
        }),
{
}

/// IDENTIFY is done after at most `identify_rank(Begin)` (= 200271) steps:
/// every step that is not the last brings the rank down.
pub proof fn lemma_identify_bound(drive: u8)
    ensures
        identify_rank(IdentifyState::Begin { drive }) == 200271,
{
}

/// The steps of the select that addresses a sector: (port, value) of the
/// `k`-th register write, `k` from 1 to 5.
pub open spec fn select_write(sel: LbaSelect, k: int) -> PortOp {
    if k == 1 {
        PortOp::Out8 { port: PORT_DRIVE, byte: sel.drive }
    } else if k == 2 {
        PortOp::Out8 { port: PORT_SECTOR_COUNT, byte: sel.sector_count }
    } else if k == 3 {
        PortOp::Out8 { port: PORT_LBA_LOW, byte: sel.lba_low }
    } else if k == 4 {
        PortOp::Out8 { port: PORT_LBA_MID, byte: sel.lba_mid }
    } else {
        PortOp::Out8 { port: PORT_LBA_HIGH, byte: sel.lba_high }
    }
}

fn select_write_exec(sel: LbaSelect, k: u8) -> (r: PortOp)
    requires
        1 <= k <= 5,
    ensures
        r == select_write(sel, k as int),
{
    if k == 1 {
        PortOp::Out8 { port: PORT_DRIVE, byte: sel.drive }
    } else if k == 2 {
        PortOp::Out8 { port: PORT_SECTOR_COUNT, byte: sel.sector_count }
    } else if k == 3 {
        PortOp::Out8 { port: PORT_LBA_LOW, byte: sel.lba_low }
    } else if k == 4 {
        PortOp::Out8 { port: PORT_LBA_MID, byte: sel.lba_mid }
    } else {
        PortOp::Out8 { port: PORT_LBA_HIGH, byte: sel.lba_high }
    }
}

/// Where a sector read stands: the access it asked for last.
#[derive(PartialEq, Eq, Structural, Clone, Copy, Debug)]
pub enum ReadPhase {
    /// Nothing asked yet.
    Begin,
    /// A status read of the wait for BSY to clear (no limit).
    Idle,
    /// The `sent`-th register write of the select.
    Select { sent: u8 },
    /// READ SECTORS (0x20) was sent.
    Commanded,
    /// A status read of the wait for DRQ, after `earlier` others.
    Drq { earlier: u32 },
    /// Data word `index` was asked for.
    Data { index: u32 },
    /// The result was given.
    Finished,
}

/// A sector read in progress.
pub struct SectorRead {
    pub phase: ReadPhase,
    pub select: LbaSelect,
    /// The data words read so far.
    pub words: [u16; 256],
}

/// A sector read as a mathematical value.
pub struct ReadView {
    pub phase: ReadPhase,
    pub select: LbaSelect,
    pub words: Seq<u16>,
}

impl View for SectorRead {
    type V = ReadView;

    open spec fn view(&self) -> ReadView {
        ReadView { phase: self.phase, select: self.select, words: self.words@ }
    }
}

/// What a sector read does next.
pub enum ReadAction {
    Io(PortOp),
    Done(Result<[u8; SECTOR_SIZE], AtaError>),
}

/// What a sector read does next, as a mathematical value.
pub enum ReadStep {
    Io(PortOp),
    Failed(AtaError),
    Read(Seq<u8>),
}

pub open spec fn read_action_view(a: ReadAction) -> ReadStep {
    match a {
        ReadAction::Io(op) => ReadStep::Io(op),
        ReadAction::Done(Err(e)) => ReadStep::Failed(e),
        ReadAction::Done(Ok(buf)) => ReadStep::Read(buf@),
    }
}

/// The sector bytes of 256 data words, low byte first.
pub open spec fn words_sector(words: Seq<u16>) -> Seq<u8> {
    Seq::new(512, |k: int| word_byte(words, k))
}

pub open spec fn read_state_ok(v: ReadView) -> bool {
    &&& v.words.len() == 256
    &&& match v.phase {
        ReadPhase::Select { sent } => 1 <= sent <= 5,
        ReadPhase::Drq { earlier } => earlier < POLL_LIMIT,
        ReadPhase::Data { index } => index < 256,
        ReadPhase::Finished => false,
        _ => true,
    }
}

pub open spec fn read_reads_answer(p: ReadPhase) -> bool {
    p is Idle || p is Drq || p is Data
}

/// One step of a sector read: wait for BSY to clear, write the five select
/// registers, send READ SECTORS (0x20), wait for DRQ (an error or 100000
/// reads without DRQ fail the read), then read the 256 data words; the
/// sector is their bytes, low byte first.
pub open spec fn read_spec(v: ReadView, ev: Option<u16>) -> (ReadView, ReadStep) {
    let status = status_read();
    let a = ev.unwrap();
    let s = a as u8;
    match v.phase {
        ReadPhase::Begin => (ReadView { phase: ReadPhase::Idle, ..v }, ReadStep::Io(status)),
        ReadPhase::Idle => if s & 0x80 != 0 {
            (v, ReadStep::Io(status))
        } else {
            (ReadView { phase: ReadPhase::Select { sent: 1 }, ..v }, ReadStep::Io(select_write(v.select, 1)))
        },
        ReadPhase::Select { sent } => if sent < 5 {
            (
                ReadView { phase: ReadPhase::Select { sent: (sent + 1) as u8 }, ..v },
                ReadStep::Io(select_write(v.select, sent + 1)),
            )
        } else {
            (
                ReadView { phase: ReadPhase::Commanded, ..v },
                ReadStep::Io(PortOp::Out8 { port: PORT_STATUS_COMMAND, byte: CMD_READ }),
            )
        },
        ReadPhase::Commanded => (ReadView { phase: ReadPhase::Drq { earlier: 0 }, ..v }, ReadStep::Io(status)),
        ReadPhase::Drq { earlier } => if s & 0x01 != 0 {
            (ReadView { phase: ReadPhase::Finished, ..v }, ReadStep::Failed(AtaError::DiskError))
        } else if s & 0x08 != 0 {
            (ReadView { phase: ReadPhase::Data { index: 0 }, ..v }, ReadStep::Io(PortOp::In16 { port: PORT_DATA }))
        } else if earlier + 1 >= POLL_LIMIT {
            (ReadView { phase: ReadPhase::Finished, ..v }, ReadStep::Failed(AtaError::Timeout))
        } else {
            (ReadView { phase: ReadPhase::Drq { earlier: (earlier + 1) as u32 }, ..v }, ReadStep::Io(status))
        },
        ReadPhase::Data { index } => {
            let words = v.words.update(index as int, a);
            if index + 1 < 256 {
                (
                    ReadView { phase: ReadPhase::Data { index: (index + 1) as u32 }, words, ..v },
                    ReadStep::Io(PortOp::In16 { port: PORT_DATA }),
                )
            } else {
                (ReadView { phase: ReadPhase::Finished, words, ..v }, ReadStep::Read(words_sector(words)))
            }
        },
        ReadPhase::Finished => (v, ReadStep::Failed(AtaError::DiskError)),
    }
}

pub proof fn lemma_read_start_ok(st: ReadView)
    requires
        st.phase == ReadPhase::Begin,
        st.words.len() == 256,
    ensures
        read_state_ok(st),
{
}

/// A read of sector `lba` from `drive` that has not started.
pub fn read_start(drive: u8, lba: u32) -> (r: SectorRead)
    ensures
        r.phase == ReadPhase::Begin,
        r.select == super::ata::select_lba_spec(drive, lba),
        r.words@.len() == 256,
{
    SectorRead { phase: ReadPhase::Begin, select: super::ata::select_lba(drive, lba), words: [0u16; 256] }
}

/// One step of a sector read. `ev` is the value that the last access read
/// (a status byte in the low byte, or a data word).
pub fn read_next(st: SectorRead, ev: Option<u16>) -> (r: (SectorRead, ReadAction))
    requires
        read_state_ok(st@),
        read_reads_answer(st.phase) ==> ev is Some,
    ensures
        (r.0@, read_action_view(r.1)) == read_spec(st@, ev),
        r.1 is Io ==> read_state_ok(r.0@),
{
    let status = PortOp::In8 { port: PORT_STATUS_COMMAND };
    let mut st = st;
    match st.phase {
        ReadPhase::Begin => {
            st.phase = ReadPhase::Idle;
            (st, ReadAction::Io(status))
        },
        ReadPhase::Idle => {
            let s = ev.unwrap() as u8;
            if is_busy(s) {
                (st, ReadAction::Io(status))
            } else {
                st.phase = ReadPhase::Select { sent: 1 };
                let op = select_write_exec(st.select, 1);
                (st, ReadAction::Io(op))
            }
        },
        ReadPhase::Select { sent } => {
            if sent < 5 {
                st.phase = ReadPhase::Select { sent: sent + 1 };
                let op = select_write_exec(st.select, sent + 1);
                (st, ReadAction::Io(op))
            } else {
                st.phase = ReadPhase::Commanded;
                (st, ReadAction::Io(PortOp::Out8 { port: PORT_STATUS_COMMAND, byte: CMD_READ }))
            }
        },
        ReadPhase::Commanded => {
            st.phase = ReadPhase::Drq { earlier: 0 };
            (st, ReadAction::Io(status))
        },
        ReadPhase::Drq { earlier } => {
            let s = ev.unwrap() as u8;
            match wait_drq_step(earlier, s) {
                Wait::Failed(e) => {
                    st.phase = ReadPhase::Finished;
                    (st, ReadAction::Done(Err(e)))
                },
                Wait::Ready => {
                    st.phase = ReadPhase::Data { index: 0 };
                    (st, ReadAction::Io(PortOp::In16 { port: PORT_DATA }))
                },
                Wait::Again => {
                    st.phase = ReadPhase::Drq { earlier: earlier + 1 };
                    (st, ReadAction::Io(status))
                },
            }
        },
        ReadPhase::Data { index } => {
            st.words[index as usize] = ev.unwrap();
            if index + 1 < 256 {
                st.phase = ReadPhase::Data { index: index + 1 };
                (st, ReadAction::Io(PortOp::In16 { port: PORT_DATA }))
            } else {
                st.phase = ReadPhase::Finished;
                let buf = sector_from_words(&st.words);
                assert(buf@ =~= words_sector(st.words@));
                (st, ReadAction::Done(Ok(buf)))
            }
        },
        ReadPhase::Finished => (st, ReadAction::Done(Err(AtaError::DiskError))),
    }
}

/// Where a sector write stands: the access it asked for last.
#[derive(PartialEq, Eq, Structural, Clone, Copy, Debug)]
pub enum WritePhase {
    /// Nothing asked yet.
    Begin,
    /// A status read of the wait for BSY to clear (no limit).
    Idle,
    /// The `sent`-th register write of the select.
    Select { sent: u8 },
    /// WRITE SECTORS (0x30) was sent.
    Commanded,
    /// `reads` of the four status reads after the command.
    Settle { reads: u8 },
    /// A status read of the wait for DRQ, after `earlier` others.
    Drq { earlier: u32 },
    /// Data word `index` was written.
    Sent { index: u32 },
    /// The status read after data word `index`.
    Acked { index: u32 },
    /// CACHE FLUSH (0xE7) was sent.
    Flushed,
    /// A status read of the wait for the flush (no limit).
    Settling,
    /// The final status read.
    Final,
    /// The result was given.
    Finished,
}

/// A sector write in progress.
pub struct SectorWrite {
    pub phase: WritePhase,
    pub select: LbaSelect,
    /// The data words to send.
    pub words: [u16; 256],
}

/// A sector write as a mathematical value.
pub struct WriteView {
    pub phase: WritePhase,
    pub select: LbaSelect,
    pub words: Seq<u16>,
}

impl View for SectorWrite {
    type V = WriteView;

    open spec fn view(&self) -> WriteView {
        WriteView { phase: self.phase, select: self.select, words: self.words@ }
    }
}

/// What a sector write does next.
#[derive(PartialEq, Eq, Clone, Copy, Debug)]
pub enum WriteAction {
    Io(PortOp),
    Done(Result<(), AtaError>),
}

pub open spec fn write_state_ok(v: WriteView) -> bool {
    &&& v.words.len() == 256
    &&& match v.phase {
        WritePhase::Select { sent } => 1 <= sent <= 5,
        WritePhase::Settle { reads } => 1 <= reads <= 4,
        WritePhase::Drq { earlier } => earlier < POLL_LIMIT,
        WritePhase::Sent { index } => index < 256,
        WritePhase::Acked { index } => index < 256,
        WritePhase::Finished => false,
        _ => true,
    }
}

pub open spec fn write_reads_answer(p: WritePhase) -> bool {
    p is Idle || p is Drq || p is Settling || p is Final
}

/// One step of a sector write: wait for BSY to clear, write the five select
/// registers, send WRITE SECTORS (0x30), read the status four times, wait
/// for DRQ (an error or 100000 reads without DRQ fail the write), send the
/// 256 data words each followed by a status read, send CACHE FLUSH (0xE7),
/// wait for BSY to clear, and read the status: ERR fails the write.
pub open spec fn write_spec(v: WriteView, ev: Option<u8>) -> (WriteView, WriteAction) {
    let status = status_read();
    let s = ev.unwrap();
    match v.phase {
        WritePhase::Begin => (WriteView { phase: WritePhase::Idle, ..v }, WriteAction::Io(status)),
        WritePhase::Idle => if s & 0x80 != 0 {
            (v, WriteAction::Io(status))
        } else {
            (WriteView { phase: WritePhase::Select { sent: 1 }, ..v }, WriteAction::Io(select_write(v.select, 1)))
        },
        WritePhase::Select { sent } => if sent < 5 {
            (
                WriteView { phase: WritePhase::Select { sent: (sent + 1) as u8 }, ..v },
                WriteAction::Io(select_write(v.select, sent + 1)),
            )
        } else {
            (
                WriteView { phase: WritePhase::Commanded, ..v },
                WriteAction::Io(PortOp::Out8 { port: PORT_STATUS_COMMAND, byte: CMD_WRITE }),
            )
        },
        WritePhase::Commanded => (WriteView { phase: WritePhase::Settle { reads: 1 }, ..v }, WriteAction::Io(status)),
        WritePhase::Settle { reads } => if reads < 4 {
            (WriteView { phase: WritePhase::Settle { reads: (reads + 1) as u8 }, ..v }, WriteAction::Io(status))
        } else {
            (WriteView { phase: WritePhase::Drq { earlier: 0 }, ..v }, WriteAction::Io(status))
        },
        WritePhase::Drq { earlier } => if s & 0x01 != 0 {
            (WriteView { phase: WritePhase::Finished, ..v }, WriteAction::Done(Err(AtaError::DiskError)))
        } else if s & 0x08 != 0 {
            (
                WriteView { phase: WritePhase::Sent { index: 0 }, ..v },
                WriteAction::Io(PortOp::Out16 { port: PORT_DATA, word: v.words[0] }),
            )
        } else if earlier + 1 >= POLL_LIMIT {
            (WriteView { phase: WritePhase::Finished, ..v }, WriteAction::Done(Err(AtaError::Timeout)))
        } else {
            (WriteView { phase: WritePhase::Drq { earlier: (earlier + 1) as u32 }, ..v }, WriteAction::Io(status))
        },
        WritePhase::Sent { index } => (WriteView { phase: WritePhase::Acked { index }, ..v }, WriteAction::Io(status)),
        WritePhase::Acked { index } => if index + 1 < 256 {
            (
                WriteView { phase: WritePhase::Sent { index: (index + 1) as u32 }, ..v },
                WriteAction::Io(PortOp::Out16 { port: PORT_DATA, word: v.words[index + 1] }),
            )
        } else {
            (
                WriteView { phase: WritePhase::Flushed, ..v },
                WriteAction::Io(PortOp::Out8 { port: PORT_STATUS_COMMAND, byte: CMD_FLUSH }),
            )
        },
        WritePhase::Flushed => (WriteView { phase: WritePhase::Settling, ..v }, WriteAction::Io(status)),
        WritePhase::Settling => if s & 0x80 != 0 {
            (v, WriteAction::Io(status))
        } else {
            (WriteView { phase: WritePhase::Final, ..v }, WriteAction::Io(status))
        },
        WritePhase::Final => if s & 0x01 != 0 {
            (WriteView { phase: WritePhase::Finished, ..v }, WriteAction::Done(Err(AtaError::WriteError)))
        } else {
            (WriteView { phase: WritePhase::Finished, ..v }, WriteAction::Done(Ok(())))
        },
        WritePhase::Finished => (v, WriteAction::Done(Err(AtaError::WriteError))),
    }
}

/// A write of `buf` to sector `lba` of `drive` that has not started.
pub fn write_start(drive: u8, lba: u32, buf: &[u8; SECTOR_SIZE]) -> (r: SectorWrite)
    ensures
        r.phase == WritePhase::Begin,
        r.select == super::ata::select_lba_spec(drive, lba),
        r.words@ == super::ata::sector_words(buf@),
        write_state_ok(r@),
{
    SectorWrite {
        phase: WritePhase::Begin,
        select: super::ata::select_lba(drive, lba),
        words: super::ata::sector_to_words(buf),
    }
}

/// One step of a sector write. `ev` is the status byte that the last
/// access read, when it was a status read that the step looks at.
pub fn write_next(st: SectorWrite, ev: Option<u8>) -> (r: (SectorWrite, WriteAction))
    requires
        write_state_ok(st@),
        write_reads_answer(st.phase) ==> ev is Some,
    ensures
        (r.0@, r.1) == write_spec(st@, ev),
        r.1 is Io ==> write_state_ok(r.0@),
{
    let status = PortOp::In8 { port: PORT_STATUS_COMMAND };
    let mut st = st;
    match st.phase {
        WritePhase::Begin => {
            st.phase = WritePhase::Idle;
            (st, WriteAction::Io(status))
        },
        WritePhase::Idle => {
            if is_busy(ev.unwrap()) {
                (st, WriteAction::Io(status))
            } else {
                st.phase = WritePhase::Select { sent: 1 };
                let op = select_write_exec(st.select, 1);
                (st, WriteAction::Io(op))
            }
        },
        WritePhase::Select { sent } => {
            if sent < 5 {
                st.phase = WritePhase::Select { sent: sent + 1 };
                let op = select_write_exec(st.select, sent + 1);
                (st, WriteAction::Io(op))
            } else {
                st.phase = WritePhase::Commanded;
                (st, WriteAction::Io(PortOp::Out8 { port: PORT_STATUS_COMMAND, byte: CMD_WRITE }))
            }
        },
        WritePhase::Commanded => {
            st.phase = WritePhase::Settle { reads: 1 };
            (st, WriteAction::Io(status))
        },
        WritePhase::Settle { reads } => {
            if reads < 4 {
                st.phase = WritePhase::Settle { reads: reads + 1 };
            } else {
                st.phase = WritePhase::Drq { earlier: 0 };
            }
            (st, WriteAction::Io(status))
        },
        WritePhase::Drq { earlier } => {
            match wait_drq_step(earlier, ev.unwrap()) {
                Wait::Failed(e) => {
                    st.phase = WritePhase::Finished;
                    (st, WriteAction::Done(Err(e)))
                },
                Wait::Ready => {
                    st.phase = WritePhase::Sent { index: 0 };
                    let w = st.words[0];
                    (st, WriteAction::Io(PortOp::Out16 { port: PORT_DATA, word: w }))
                },
                Wait::Again => {
                    st.phase = WritePhase::Drq { earlier: earlier + 1 };
                    (st, WriteAction::Io(status))
                },
            }
        },
        WritePhase::Sent { index } => {
            st.phase = WritePhase::Acked { index };
            (st, WriteAction::Io(status))
        },
        WritePhase::Acked { index } => {
            if index + 1 < 256 {
                st.phase = WritePhase::Sent { index: index + 1 };
                let w = st.words[(index + 1) as usize];
                (st, WriteAction::Io(PortOp::Out16 { port: PORT_DATA, word: w }))
            } else {
                st.phase = WritePhase::Flushed;
                (st, WriteAction::Io(PortOp::Out8 { port: PORT_STATUS_COMMAND, byte: CMD_FLUSH }))
            }
        },
        WritePhase::Flushed => {
            st.phase = WritePhase::Settling;
            (st, WriteAction::Io(status))
        },
        WritePhase::Settling => {
            if !is_busy(ev.unwrap()) {
                st.phase = WritePhase::Final;
            }
            (st, WriteAction::Io(status))
        },
        WritePhase::Final => {
            st.phase = WritePhase::Finished;
            if write_failed(ev.unwrap()) {
                (st, WriteAction::Done(Err(AtaError::WriteError)))
            } else {
                (st, WriteAction::Done(Ok(())))
            }
        },
        WritePhase::Finished => (st, WriteAction::Done(Err(AtaError::WriteError))),
    }
}

/// A sector write addresses the sector it was made for: no step changes the
/// register values or the data, and once the drive is not busy the write
/// puts the drive byte in 0x1F6, the count in 0x1F2, the low, middle and
/// high LBA bytes in 0x1F3, 0x1F4 and 0x1F5, then WRITE SECTORS (0x30) in
/// 0x1F7. The data words go to 0x1F0 in order, the first once DRQ is set.
pub proof fn lemma_write_addresses_sector(v: WriteView, ev: Option<u8>)
    requires
        write_state_ok(v),
        write_reads_answer(v.phase) ==> ev is Some,
    ensures
        write_spec(v, ev).0.select == v.select,
        write_spec(v, ev).0.words == v.words,
        v.phase == WritePhase::Idle && ev.unwrap() & 0x80 == 0 ==> write_spec(v, ev).1 == WriteAction::Io(
            PortOp::Out8 { port: 0x1F6, byte: v.select.drive },
        ),
        v.phase == (WritePhase::Select { sent: 1 }) ==> write_spec(v, ev).1 == WriteAction::Io(
            PortOp::Out8 { port: 0x1F2, byte: v.select.sector_count },
        ),
        v.phase == (WritePhase::Select { sent: 2 }) ==> write_spec(v, ev).1 == WriteAction::Io(
            PortOp::Out8 { port: 0x1F3, byte: v.select.lba_low },
        ),
        v.phase == (WritePhase::Select { sent: 3 }) ==> write_spec(v, ev).1 == WriteAction::Io(
            PortOp::Out8 { port: 0x1F4, byte: v.select.lba_mid },
        ),
        v.phase == (WritePhase::Select { sent: 4 }) ==> write_spec(v, ev).1 == WriteAction::Io(
            PortOp::Out8 { port: 0x1F5, byte: v.select.lba_high },
        ),
        v.phase == (WritePhase::Select { sent: 5 }) ==> write_spec(v, ev).1 == WriteAction::Io(
            PortOp::Out8 { port: 0x1F7, byte: 0x30 },
        ),
        v.phase is Drq && ev.unwrap() & 0x01 == 0 && ev.unwrap() & 0x08 != 0 ==> write_spec(v, ev).1
            == WriteAction::Io(PortOp::Out16 { port: 0x1F0, word: v.words[0] }),
        forall|i: u32|
            v.phase == (WritePhase::Acked { index: i }) && i + 1 < 256 ==> #[trigger] write_spec(v, ev).1
                == WriteAction::Io(PortOp::Out16 { port: 0x1F0, word: v.words[i + 1] }),
{
}

/// A sector read addresses the sector it was made for: no step changes the
/// register values, and once the drive is not busy the read puts the drive
/// byte in 0x1F6, the count in 0x1F2, the low, middle and high LBA bytes in
/// 0x1F3, 0x1F4 and 0x1F5, then READ SECTORS (0x20) in 0x1F7.
pub proof fn lemma_read_addresses_sector(v: ReadView, ev: Option<u16>)
    requires
        read_state_ok(v),
        read_reads_answer(v.phase) ==> ev is Some,
    ensures
        read_spec(v, ev).0.select == v.select,
        v.phase == ReadPhase::Idle && (ev.unwrap() as u8) & 0x80 == 0 ==> read_spec(v, ev).1 == ReadStep::Io(
            PortOp::Out8 { port: 0x1F6, byte: v.select.drive },
        ),
        v.phase == (ReadPhase::Select { sent: 1 }) ==> read_spec(v, ev).1 == ReadStep::Io(
            PortOp::Out8 { port: 0x1F2, byte: v.select.sector_count },
        ),
        v.phase == (ReadPhase::Select { sent: 2 }) ==> read_spec(v, ev).1 == ReadStep::Io(
            PortOp::Out8 { port: 0x1F3, byte: v.select.lba_low },
        ),
        v.phase == (ReadPhase::Select { sent: 3 }) ==> read_spec(v, ev).1 == ReadStep::Io(
            PortOp::Out8 { port: 0x1F4, byte: v.select.lba_mid },
        ),
        v.phase == (ReadPhase::Select { sent: 4 }) ==> read_spec(v, ev).1 == ReadStep::Io(
            PortOp::Out8 { port: 0x1F5, byte: v.select.lba_high },
        ),
        v.phase == (ReadPhase::Select { sent: 5 }) ==> read_spec(v, ev).1 == ReadStep::Io(
            PortOp::Out8 { port: 0x1F7, byte: 0x20 },
        ),
{
}

/// A read and a write of the same sector make the same register writes at
/// the same point of the select.
pub proof fn lemma_read_write_select_alike(r: ReadView, w: WriteView, sent: u8, er: Option<u16>, ew: Option<u8>)
    requires
        r.select == w.select,
        1 <= sent < 5,
        r.phase == (ReadPhase::Select { sent }),
        w.phase == (WritePhase::Select { sent }),
    ensures
        read_spec(r, er).1 matches ReadStep::Io(op) && write_spec(w, ew).1 == WriteAction::Io(op),
        read_spec(r, er).0.phase == (ReadPhase::Select { sent: (sent + 1) as u8 }),
        write_spec(w, ew).0.phase == (WritePhase::Select { sent: (sent + 1) as u8 }),
{
}

} // verus!
