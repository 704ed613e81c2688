//! The ATA (PIO) disk driver's logic: which registers it uses, what it
//! writes to them, how it reads the status register, and how the 256
//! data words of a transfer map to the 512 bytes of a sector.
use super::port::{Port, PortRead, PortWrite};
use vstd::prelude::*;

verus! {

pub const SECTOR_SIZE: usize = 512;

pub const CMD_READ: u8 = 0x20;
pub const CMD_WRITE: u8 = 0x30;
pub const CMD_FLUSH: u8 = 0xE7;
pub const CMD_IDENTIFY: u8 = 0xEC;

pub const STATUS_ERR: u8 = 0x01;
pub const STATUS_DRQ: u8 = 0x08;
pub const STATUS_BSY: u8 = 0x80;

/// Drive-select value of the primary master.
pub const DRIVE_MASTER: u8 = 0xA0;
/// Drive-select value of the primary slave.
pub const DRIVE_SLAVE: u8 = 0xB0;

/// How many status reads a wait for DRQ (or BSY) may take before it gives up.
pub const POLL_LIMIT: u32 = 100_000;

/// The registers of the primary ATA channel.
pub struct AtaPorts {
    pub data: Port<u16>,
    pub sector_count: Port<u8>,
    pub lba_low: Port<u8>,
    pub lba_mid: Port<u8>,
    pub lba_high: Port<u8>,
    pub drive: Port<u8>,
    pub status: PortRead<u8>,
    pub command: PortWrite<u8>,
}

impl AtaPorts {
    pub fn new() -> (r: Self)
        ensures
            r.data.number() == 0x1F0,
            r.sector_count.number() == 0x1F2,
            r.lba_low.number() == 0x1F3,
            r.lba_mid.number() == 0x1F4,
            r.lba_high.number() == 0x1F5,
            r.drive.number() == 0x1F6,
            r.status.number() == 0x1F7,
            r.command.number() == 0x1F7,
    {
        AtaPorts {
            data: Port::new(0x1F0),
            sector_count: Port::new(0x1F2),
            lba_low: Port::new(0x1F3),
            lba_mid: Port::new(0x1F4),
            lba_high: Port::new(0x1F5),
            drive: Port::new(0x1F6),
            status: PortRead::new(0x1F7),
            command: PortWrite::new(0x1F7),
        }
    }
}

/// The ways a transfer can fail.
#[derive(PartialEq, Eq, Structural, Clone, Copy, Debug)]
pub enum AtaError {
    /// The drive set the ERR bit while a transfer was awaited.
    DiskError,
    /// The drive never became ready for the transfer.
    Timeout,
    /// The drive reported an error after a write was flushed.
    WriteError,
}

/// The text the kernel shows for a disk error.
pub open spec fn ata_message(e: AtaError) -> &'static str {
    match e {
        AtaError::DiskError => "ATA: disk error",
        AtaError::Timeout => "ATA: timeout",
        AtaError::WriteError => "ATA: write error",
    }
}

impl AtaError {
    /// The text the kernel shows for this error.
    pub fn message(&self) -> (r: &'static str)
        ensures
            r == ata_message(*self),
    {
        match self {
            AtaError::DiskError => "ATA: disk error",
            AtaError::Timeout => "ATA: timeout",
            AtaError::WriteError => "ATA: write error",
        }
    }
}

/// What one read of the status register means while waiting for data.
#[derive(PartialEq, Eq, Structural, Clone, Copy, Debug)]
pub enum DrqPoll {
    /// The ERR bit is set: give up with a disk error.
    Failed,
    /// The DRQ bit is set: data may be transferred.
    Ready,
    /// Neither: read the status again.
    Waiting,
}

pub open spec fn bit_set(status: u8, mask: u8) -> bool {
    status & mask != 0
}

/// Reads a status byte while waiting for DRQ. ERR takes precedence over DRQ.
pub fn drq_poll(status: u8) -> (r: DrqPoll)
    ensures
        bit_set(status, STATUS_ERR) ==> r == DrqPoll::Failed,
        !bit_set(status, STATUS_ERR) && bit_set(status, STATUS_DRQ) ==> r == DrqPoll::Ready,
        !bit_set(status, STATUS_ERR) && !bit_set(status, STATUS_DRQ) ==> r == DrqPoll::Waiting,
{
    if status & STATUS_ERR != 0 {
        DrqPoll::Failed
    } else if status & STATUS_DRQ != 0 {
        DrqPoll::Ready
    } else {
        DrqPoll::Waiting
    }
}

/// What to do after one more status read while waiting for DRQ.
#[derive(PartialEq, Eq, Structural, Clone, Copy, Debug)]
pub enum Wait {
    /// Read the status again.
    Again,
    /// Data may be transferred.
    Ready,
    /// Give up.
    Failed(AtaError),
}

/// The wait for DRQ before a transfer: `earlier` status reads were made
/// before this one, which read `status`. An error stops it; after the
/// 100000th read without DRQ it times out.
pub fn wait_drq_step(earlier: u32, status: u8) -> (r: Wait)
    requires
        earlier < POLL_LIMIT,
    ensures
        bit_set(status, STATUS_ERR) ==> r == Wait::Failed(AtaError::DiskError),
        !bit_set(status, STATUS_ERR) && bit_set(status, STATUS_DRQ) ==> r == Wait::Ready,
        !bit_set(status, STATUS_ERR) && !bit_set(status, STATUS_DRQ) ==> r == (if earlier + 1 >= POLL_LIMIT {
            Wait::Failed(AtaError::Timeout)
        } else {
            Wait::Again
        }),
{
    match drq_poll(status) {
        DrqPoll::Failed => Wait::Failed(AtaError::DiskError),
        DrqPoll::Ready => Wait::Ready,
        DrqPoll::Waiting => {
            if earlier + 1 >= POLL_LIMIT {
                Wait::Failed(AtaError::Timeout)
            } else {
                Wait::Again
            }
        },
    }
}

/// What to do after one more status read while IDENTIFY waits for its data.
#[derive(PartialEq, Eq, Structural, Clone, Copy, Debug)]
pub enum Identify {
    /// Read the status again.
    Again,
    /// Read the 256 identification words: the drive is there.
    Present,
    /// The drive reported an error: there is no usable drive.
    Absent,
}

/// The wait for the identification data: an error means no drive, DRQ
/// means data; after the 100000th read the data is read anyway.
pub fn identify_step(earlier: u32, status: u8) -> (r: Identify)
    requires
        earlier < POLL_LIMIT,
    ensures
        bit_set(status, STATUS_ERR) ==> r == Identify::Absent,
        !bit_set(status, STATUS_ERR) && bit_set(status, STATUS_DRQ) ==> r == Identify::Present,
        !bit_set(status, STATUS_ERR) && !bit_set(status, STATUS_DRQ) ==> r == (if earlier + 1 >= POLL_LIMIT {
            Identify::Present
        } else {
            Identify::Again
        }),
{
    match drq_poll(status) {
        DrqPoll::Failed => Identify::Absent,
        DrqPoll::Ready => Identify::Present,
        DrqPoll::Waiting => {
            if earlier + 1 >= POLL_LIMIT {
                Identify::Present
            } else {
                Identify::Again
            }
        },
    }
}

/// Whether IDENTIFY keeps waiting for BSY to clear after this status read:
/// it stops when BSY is clear, or after the 100000th read.
pub fn identify_busy_step(earlier: u32, status: u8) -> (r: bool)
    requires
        earlier < POLL_LIMIT,
    ensures
        r == (bit_set(status, STATUS_BSY) && earlier + 1 < POLL_LIMIT),
{
    is_busy(status) && earlier + 1 < POLL_LIMIT
}

/// Whether the drive is still busy.
pub fn is_busy(status: u8) -> (r: bool)
    ensures
        r == bit_set(status, STATUS_BSY),
{
    status & STATUS_BSY != 0
}

/// Whether the status after IDENTIFY shows that no drive answers.
pub fn no_drive(status: u8) -> (r: bool)
    ensures
        r == (status == 0 || status == 0xFF),
{
    status == 0 || status == 0xFF
}

/// Whether the LBA mid/high registers carry a packet-device (ATAPI) signature,
/// which this driver does not use.
pub fn is_atapi_signature(mid: u8, high: u8) -> (r: bool)
    ensures
        r == ((mid == 0x14 && high == 0xEB) || (mid == 0x69 && high == 0x96)),
{
    (mid == 0x14 && high == 0xEB) || (mid == 0x69 && high == 0x96)
}

/// Whether the status read after a flush reports a failed write.
pub fn write_failed(status: u8) -> (r: bool)
    ensures
        r == bit_set(status, STATUS_ERR),
{
    status & STATUS_ERR != 0
}

/// The values written to the task-file registers to address one sector.
#[derive(PartialEq, Eq, Structural, Clone, Copy, Debug)]
pub struct LbaSelect {
    pub drive: u8,
    pub sector_count: u8,
    pub lba_low: u8,
    pub lba_mid: u8,
    pub lba_high: u8,
}

/// The register values that select sector `lba` (28-bit LBA) on `drive`.
pub open spec fn select_lba_spec(drive: u8, lba: u32) -> LbaSelect {
    LbaSelect {
        drive: drive | (((lba >> 24u32) as u8) & 0x0F),
        sector_count: 1,
        lba_low: (lba & 0xFF) as u8,
        lba_mid: ((lba >> 8u32) & 0xFF) as u8,
        lba_high: ((lba >> 16u32) & 0xFF) as u8,
    }
}

/// The select registers carry the sector number byte by byte: the low byte
/// of `lba`, then bits 8..16, then bits 16..24; the drive byte keeps the
/// drive bits and adds bits 24..28 in its low nibble; the count is one.
pub proof fn lemma_select_lba_bytes(drive: u8, lba: u32)
    ensures
        select_lba_spec(drive, lba).lba_low == lba % 256,
        select_lba_spec(drive, lba).lba_mid == (lba / 256) % 256,
        select_lba_spec(drive, lba).lba_high == (lba / 65536) % 256,
        select_lba_spec(drive, lba).sector_count == 1,
        select_lba_spec(drive, lba).drive == drive | (((lba / 16777216) % 16) as u8),
        drive & 0x0F == 0 ==> select_lba_spec(drive, lba).drive == drive + (lba / 16777216) % 16,
{
    assert((lba & 0xFF) as u8 == lba % 256) by (bit_vector);
    assert(((lba >> 8u32) & 0xFF) as u8 == (lba / 256) % 256) by (bit_vector);
    assert(((lba >> 16u32) & 0xFF) as u8 == (lba / 65536) % 256) by (bit_vector);
    assert(((lba >> 24u32) as u8) & 0x0F == (((lba / 16777216) % 16) as u8)) by (bit_vector);
    assert(drive & 0x0F == 0 ==> drive | (((lba / 16777216) % 16) as u8) == drive + (lba / 16777216) % 16)
        by (bit_vector);
}

/// The register values that select sector `lba` (28-bit LBA) on `drive`:
/// the drive byte carries LBA bits 24..28, the count is one sector.
pub fn select_lba(drive: u8, lba: u32) -> (r: LbaSelect)
    ensures
        r == select_lba_spec(drive, lba),
        r.drive == drive | (((lba >> 24u32) as u8) & 0x0F),
        r.sector_count == 1,
        r.lba_low == (lba & 0xFF) as u8,
        r.lba_mid == ((lba >> 8u32) & 0xFF) as u8,
        r.lba_high == ((lba >> 16u32) & 0xFF) as u8,
{
    LbaSelect {
        drive: drive | (((lba >> 24u32) as u8) & 0x0F),
        sector_count: 1,
        lba_low: (lba & 0xFF) as u8,
        lba_mid: ((lba >> 8u32) & 0xFF) as u8,
        lba_high: ((lba >> 16u32) & 0xFF) as u8,
    }
}

/// The byte at position `k` of a sector read as 256 little-endian words.
pub open spec fn word_byte(words: Seq<u16>, k: int) -> u8 {
    if k % 2 == 0 {
        (words[k / 2] % 256) as u8
    } else {
        (words[k / 2] / 256) as u8
    }
}

/// Word `i` of the data transfer that writes a sector.
pub open spec fn sector_word(sector: Seq<u8>, i: int) -> u16 {
    (sector[2 * i] + 256 * sector[2 * i + 1]) as u16
}

/// The 256 data words of a sector.
pub open spec fn sector_words(sector: Seq<u8>) -> Seq<u16> {
    Seq::new(256, |i: int| sector_word(sector, i))
}

/// The sector bytes of the 256 data words read from the drive, low byte first.
pub fn sector_from_words(words: &[u16; 256]) -> (buf: [u8; SECTOR_SIZE])
    ensures
        forall|k: int| 0 <= k < 512 ==> #[trigger] buf@[k] == word_byte(words@, k),
{
    let mut buf = [0u8; SECTOR_SIZE];
    let mut i: usize = 0;
    while i < 256
        invariant
            i <= 256,
            buf@.len() == 512,
            forall|k: int| 0 <= k < 2 * i ==> #[trigger] buf@[k] == word_byte(words@, k),
        decreases 256 - i,
    {
        let word = words[i];
        let lo = (word & 0xFF) as u8;
        let hi = (word >> 8u16) as u8;
        assert(lo == word % 256 && hi == word / 256) by (bit_vector)
            requires
                lo == (word & 0xFF) as u8,
                hi == (word >> 8u16) as u8,
        ;
        buf[i * 2] = lo;
        buf[i * 2 + 1] = hi;
        assert forall|k: int| 0 <= k < 2 * (i + 1) implies #[trigger] buf@[k] == word_byte(words@, k) by {
            if k >= 2 * i {
                assert(k / 2 == i);
            }
        }
        i = i + 1;
    }
    buf
}

/// The 256 data words, low byte first, that write a sector to the drive.
pub fn sector_to_words(buf: &[u8; SECTOR_SIZE]) -> (words: [u16; 256])
    ensures
        words@ == sector_words(buf@),
{
    let mut words = [0u16; 256];
    let mut i: usize = 0;
    while i < 256
        invariant
            i <= 256,
            words@.len() == 256,
            buf@.len() == 512,
            forall|j: int| 0 <= j < i ==> #[trigger] words@[j] == sector_word(buf@, j),
        decreases 256 - i,
    {
        let lo = buf[i * 2];
        let hi = buf[i * 2 + 1];
        let word: u16 = (lo as u16) | ((hi as u16) << 8u16);
        assert(word == lo + 256 * hi) by (bit_vector)
            requires
                word == (lo as u16) | ((hi as u16) << 8u16),
        ;
        words[i] = word;
        i = i + 1;
    }
    assert(words@ =~= sector_words(buf@));
    words
}

/// Writing a sector and reading the words back gives the same sector.
pub proof fn lemma_sector_words_roundtrip(sector: Seq<u8>)
    requires
        sector.len() == 512,
    ensures
        forall|k: int| 0 <= k < 512 ==> #[trigger] word_byte(sector_words(sector), k) == sector[k],
{
    let words = sector_words(sector);
    assert forall|k: int| 0 <= k < 512 implies #[trigger] word_byte(words, k) == sector[k] by {
        let i = k / 2;
        let lo = sector[2 * i];
        let hi = sector[2 * i + 1];
        assert(words[i] == (lo + 256 * hi) as u16);
        assert((lo + 256 * hi) as u16 % 256 == lo && (lo + 256 * hi) as u16 / 256 == hi) by (nonlinear_arith)
            requires
                0 <= lo < 256,
                0 <= hi < 256,
        ;
    }
}

/// Reading 256 words into a sector and writing that sector back sends the
/// same 256 words.
pub proof fn lemma_words_sector_roundtrip(words: Seq<u16>)
    requires
        words.len() == 256,
    ensures
        sector_words(Seq::new(512, |k: int| word_byte(words, k))) == words,
{
    let sector = Seq::new(512, |k: int| word_byte(words, k));
    assert forall|i: int| 0 <= i < 256 implies #[trigger] sector_words(sector)[i] == words[i] by {
        let w = words[i] as int;
        assert((2 * i) / 2 == i && (2 * i + 1) / 2 == i && (2 * i) % 2 == 0 && (2 * i + 1) % 2 == 1);
        assert(sector[2 * i] == (w % 256) as u8);
        assert(sector[2 * i + 1] == (w / 256) as u8);
        assert(w % 256 + 256 * (w / 256) == w) by (nonlinear_arith)
            requires
                0 <= w,
        ;
        assert(w / 256 < 256) by (nonlinear_arith)
            requires
                0 <= w < 65536,
        ;
    }
    assert(sector_words(sector) =~= words);
}

/// The drive the filesystem uses: the slave (0xB0) if it answers, else
/// the master (0xA0) if it answers, else the drive selected before.
pub fn choose_drive(slave_found: bool, master_found: bool, current: u8) -> (r: u8)
    ensures
        slave_found ==> r == DRIVE_SLAVE,
        !slave_found && master_found ==> r == DRIVE_MASTER,
        !slave_found && !master_found ==> r == current,
{
    if slave_found {
        DRIVE_SLAVE
    } else if master_found {
        DRIVE_MASTER
    } else {
        current
    }
}

/// The two upper-case hex digits of a nibble value.
pub open spec fn hex_digit(n: int) -> u8 {
    if n < 10 {
        (48 + n) as u8
    } else {
        (55 + n) as u8
    }
}

/// The two hex digits of a byte, high nibble first.
pub fn byte_to_hex(byte: u8) -> (r: [u8; 2])
    ensures
        r@ == seq![hex_digit((byte / 16) as int), hex_digit((byte % 16) as int)],
{
    let hex: [u8; 16] = [
        48, 49, 50, 51, 52, 53, 54, 55, 56, 57, 65, 66, 67, 68, 69, 70,
    ];
    assert(forall|n: int| 0 <= n < 16 ==> #[trigger] hex@[n] == hex_digit(n));
    assert((byte >> 4u8) == byte / 16 && (byte & 0xFu8) == byte % 16) by (bit_vector);
    let r = [hex[(byte >> 4u8) as usize], hex[(byte & 0xFu8) as usize]];
    assert(r@ =~= seq![hex_digit((byte / 16) as int), hex_digit((byte % 16) as int)]);
    r
}

} // verus!
