use rood::drivers::ata::{sector_to_words, AtaError, SECTOR_SIZE};
use rood::drivers::ata_protocol::{
    identify_next, read_next, read_start, write_next, write_start, IdentifyAction, IdentifyState, PortOp,
    ReadAction, WriteAction,
};

const STATUS: u16 = 0x1F7;

fn identify(drive: u8, mut answer: impl FnMut(PortOp) -> u8) -> (Vec<PortOp>, bool) {
    let mut ops = Vec::new();
    let (mut st, mut action) = identify_next(IdentifyState::Begin { drive }, None);
    loop {
        match action {
            IdentifyAction::Done(b) => return (ops, b),
            IdentifyAction::Io(op) => {
                ops.push(op);
                let ev = match op {
                    PortOp::In8 { .. } => Some(answer(op)),
                    _ => None,
                };
                (st, action) = identify_next(st, ev);
            },
        }
    }
}

#[test]
fn identify_prologue_and_present_drive() {
    let (ops, present) = identify(0xA0, |op| match op {
        PortOp::In8 { port: STATUS } => 0x58,
        _ => 0,
    });
    assert!(present);
    assert_eq!(ops[0], PortOp::Out8 { port: 0x1F6, byte: 0xA0 });
    for k in 1..5 {
        assert_eq!(ops[k], PortOp::In8 { port: STATUS });
    }
    assert_eq!(ops[5], PortOp::Out8 { port: 0x1F3, byte: 0 });
    assert_eq!(ops[6], PortOp::Out8 { port: 0x1F4, byte: 0 });
    assert_eq!(ops[7], PortOp::Out8 { port: 0x1F5, byte: 0 });
    assert_eq!(ops[8], PortOp::Out8 { port: 0x1F2, byte: 0 });
    assert_eq!(ops[9], PortOp::Out8 { port: STATUS, byte: 0xEC });
    assert_eq!(ops.iter().filter(|o| **o == PortOp::In16 { port: 0x1F0 }).count(), 256);
}

#[test]
fn identify_refusals() {
    assert!(!identify(0xB0, |_| 0).1);
    assert!(!identify(0xB0, |_| 0xFF).1);
    let (_, present) = identify(0xA0, |op| match op {
        PortOp::In8 { port: 0x1F4 } => 0x14,
        PortOp::In8 { port: 0x1F5 } => 0xEB,
        _ => 0x50,
    });
    assert!(!present);
    let mut reads = 0;
    let (_, present) = identify(0xA0, |op| match op {
        PortOp::In8 { port: STATUS } => {
            reads += 1;
            if reads <= 5 {
                0x50
            } else {
                0x51
            }
        },
        _ => 0,
    });
    assert!(!present);
}

#[test]
fn identify_gives_up_waiting_for_bsy_and_drq() {
    let (ops, present) = identify(0xA0, |op| match op {
        PortOp::In8 { port: STATUS } => 0x80,
        _ => 0,
    });
    assert!(present);
    assert!(ops.len() < 200_300);
}

fn read(lba: u32, mut answer: impl FnMut(PortOp) -> u16) -> (Vec<PortOp>, Result<[u8; SECTOR_SIZE], AtaError>) {
    let mut ops = Vec::new();
    let (mut st, mut action) = read_next(read_start(0xA0, lba), None);
    loop {
        match action {
            ReadAction::Done(r) => return (ops, r),
            ReadAction::Io(op) => {
                ops.push(op);
                let ev = match op {
                    PortOp::In8 { .. } | PortOp::In16 { .. } => Some(answer(op)),
                    _ => None,
                };
                (st, action) = read_next(st, ev);
            },
        }
    }
}

#[test]
fn read_selects_and_collects_words() {
    let mut busy = 3;
    let mut next_word: u16 = 0;
    let (ops, r) = read(0x0102_0304, |op| match op {
        PortOp::In8 { port: STATUS } => {
            if busy > 0 {
                busy -= 1;
                0x80
            } else {
                0x58
            }
        },
        PortOp::In16 { .. } => {
            next_word += 1;
            next_word * 3
        },
        _ => 0,
    });
    let sector = r.unwrap();
    assert_eq!(&ops[4..10], &[
        PortOp::Out8 { port: 0x1F6, byte: 0xA1 },
        PortOp::Out8 { port: 0x1F2, byte: 1 },
        PortOp::Out8 { port: 0x1F3, byte: 0x04 },
        PortOp::Out8 { port: 0x1F4, byte: 0x03 },
        PortOp::Out8 { port: 0x1F5, byte: 0x02 },
        PortOp::Out8 { port: STATUS, byte: 0x20 },
    ]);
    assert_eq!(sector[0], 3);
    assert_eq!(sector[1], 0);
    assert_eq!(sector[510], (768u16 & 0xFF) as u8);
    assert_eq!(sector[511], (768u16 >> 8) as u8);
}

#[test]
fn read_errors() {
    let (_, r) = read(5, |op| match op {
        PortOp::In8 { port: STATUS } => 0x41,
        _ => 0,
    });
    assert_eq!(r, Err(AtaError::DiskError));
    let mut reads = 0u32;
    let (_, r) = read(5, |op| match op {
        PortOp::In8 { port: STATUS } => {
            reads += 1;
            0x40
        },
        _ => 0,
    });
    assert_eq!(r, Err(AtaError::Timeout));
    assert_eq!(reads, 1 + 100_000);
}

fn write(buf: &[u8; SECTOR_SIZE], final_status: u8) -> (Vec<PortOp>, Result<(), AtaError>) {
    let mut ops = Vec::new();
    let (mut st, mut action) = write_next(write_start(0xB0, 7, buf), None);
    let mut flushed = false;
    loop {
        match action {
            WriteAction::Done(r) => return (ops, r),
            WriteAction::Io(op) => {
                ops.push(op);
                if op == (PortOp::Out8 { port: STATUS, byte: 0xE7 }) {
                    flushed = true;
                }
                let ev = match op {
                    PortOp::In8 { .. } => Some(if flushed { final_status } else { 0x58 }),
                    _ => None,
                };
                (st, action) = write_next(st, ev);
            },
        }
    }
}

#[test]
fn write_sends_the_words_and_checks_the_flush() {
    let mut buf = [0u8; SECTOR_SIZE];
    for (i, b) in buf.iter_mut().enumerate() {
        *b = (i % 251) as u8;
    }
    let (ops, r) = write(&buf, 0x50);
    assert_eq!(r, Ok(()));
    assert_eq!(ops[1], PortOp::Out8 { port: 0x1F6, byte: 0xB0 });
    assert_eq!(ops[6], PortOp::Out8 { port: STATUS, byte: 0x30 });
    let sent: Vec<u16> = ops
        .iter()
        .filter_map(|o| match o {
            PortOp::Out16 { port: 0x1F0, word } => Some(*word),
            _ => None,
        })
        .collect();
    assert_eq!(sent, sector_to_words(&buf).to_vec());
    let (_, r) = write(&buf, 0x51);
    assert_eq!(r, Err(AtaError::WriteError));
}
