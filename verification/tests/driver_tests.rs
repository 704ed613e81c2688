use rood::drivers::ata::{
    byte_to_hex, choose_drive, drq_poll, identify_busy_step, identify_step, is_atapi_signature, is_busy,
    no_drive, sector_from_words, sector_to_words, select_lba, wait_drq_step, write_failed, AtaError, AtaPorts,
    DrqPoll, Identify, Wait, SECTOR_SIZE,
};
use rood::drivers::port::{Port, PortRead, PortWrite};
use rood::drivers::ps2::{handle_scancode, output_full, HandleResult, Ps2State};
use rood::keyboard::{self, scancode_to_char, KeyAction, KeyboardState};

#[test]
fn port_handles_keep_their_number() {
    assert_eq!(Port::<u8>::new(0x60).port(), 0x60);
    assert_eq!(PortRead::<u16>::new(0x1F7).port(), 0x1F7);
    assert_eq!(PortWrite::<u32>::new(0xCF8).port(), 0xCF8);
    let p = AtaPorts::new();
    assert_eq!(p.data.port(), 0x1F0);
    assert_eq!(p.sector_count.port(), 0x1F2);
    assert_eq!(p.drive.port(), 0x1F6);
    assert_eq!(p.status.port(), 0x1F7);
    assert_eq!(p.command.port(), 0x1F7);
}

#[test]
fn hex_of_bytes() {
    assert_eq!(byte_to_hex(0x00), *b"00");
    assert_eq!(byte_to_hex(0x5A), *b"5A");
    assert_eq!(byte_to_hex(0xFF), *b"FF");
    assert_eq!(byte_to_hex(0x9c), *b"9C");
}

#[test]
fn lba_registers() {
    let s = select_lba(0xA0, 0x0F12_3456);
    assert_eq!(s.drive, 0xAF);
    assert_eq!(s.sector_count, 1);
    assert_eq!(s.lba_low, 0x56);
    assert_eq!(s.lba_mid, 0x34);
    assert_eq!(s.lba_high, 0x12);
    assert_eq!(select_lba(0xB0, 0xF000_0002).drive, 0xB0);
}

#[test]
fn sector_words_are_little_endian_and_roundtrip() {
    let mut buf = [0u8; SECTOR_SIZE];
    for (i, b) in buf.iter_mut().enumerate() {
        *b = (i * 7 % 256) as u8;
    }
    let words = sector_to_words(&buf);
    assert_eq!(words[0], buf[0] as u16 | (buf[1] as u16) << 8);
    assert_eq!(words[255], buf[510] as u16 | (buf[511] as u16) << 8);
    assert_eq!(sector_from_words(&words), buf);
    let mut w = [0u16; 256];
    w[3] = 0xBEEF;
    let s = sector_from_words(&w);
    assert_eq!(s[6], 0xEF);
    assert_eq!(s[7], 0xBE);
    assert_eq!(sector_to_words(&s), w);
}

#[test]
fn status_decisions() {
    assert_eq!(drq_poll(0x01), DrqPoll::Failed);
    assert_eq!(drq_poll(0x09), DrqPoll::Failed);
    assert_eq!(drq_poll(0x08), DrqPoll::Ready);
    assert_eq!(drq_poll(0x80), DrqPoll::Waiting);
    assert!(is_busy(0x80));
    assert!(!is_busy(0x58));
    assert!(no_drive(0));
    assert!(no_drive(0xFF));
    assert!(!no_drive(0x50));
    assert!(is_atapi_signature(0x14, 0xEB));
    assert!(is_atapi_signature(0x69, 0x96));
    assert!(!is_atapi_signature(0, 0));
    assert!(write_failed(0x51));
    assert!(!write_failed(0x50));
}

#[test]
fn waiting_for_data() {
    assert_eq!(wait_drq_step(0, 0x08), Wait::Ready);
    assert_eq!(wait_drq_step(0, 0x01), Wait::Failed(AtaError::DiskError));
    assert_eq!(wait_drq_step(0, 0x80), Wait::Again);
    assert_eq!(wait_drq_step(99_998, 0x80), Wait::Again);
    assert_eq!(wait_drq_step(99_999, 0x80), Wait::Failed(AtaError::Timeout));
    assert_eq!(identify_step(5, 0x01), Identify::Absent);
    assert_eq!(identify_step(5, 0x08), Identify::Present);
    assert_eq!(identify_step(5, 0x00), Identify::Again);
    assert_eq!(identify_step(99_999, 0x00), Identify::Present);
    assert!(identify_busy_step(0, 0x80));
    assert!(!identify_busy_step(0, 0x40));
    assert!(!identify_busy_step(99_999, 0x80));
}

#[test]
fn drive_choice_prefers_slave() {
    assert_eq!(choose_drive(true, true, 0xA0), 0xB0);
    assert_eq!(choose_drive(false, true, 0xB0), 0xA0);
    assert_eq!(choose_drive(false, false, 0xB0), 0xB0);
}

#[test]
fn ata_messages() {
    assert_eq!(AtaError::DiskError.message(), "ATA: disk error");
    assert_eq!(AtaError::Timeout.message(), "ATA: timeout");
    assert_eq!(AtaError::WriteError.message(), "ATA: write error");
}

#[test]
fn scancodes_to_ascii() {
    assert_eq!(scancode_to_char(0x1E, false), Some(b'a'));
    assert_eq!(scancode_to_char(0x1E, true), Some(b'A'));
    assert_eq!(scancode_to_char(0x02, false), Some(b'1'));
    assert_eq!(scancode_to_char(0x02, true), Some(b'!'));
    assert_eq!(scancode_to_char(0x39, false), Some(b' '));
    assert_eq!(scancode_to_char(0x2B, false), Some(b'\\'));
    assert_eq!(scancode_to_char(0x28, true), Some(b'"'));
    assert_eq!(scancode_to_char(0x1C, false), None);
    assert_eq!(scancode_to_char(0x01, false), None);
    assert_eq!(scancode_to_char(0x0E, true), None);
    assert_eq!(scancode_to_char(0x0F, false), None);
    assert_eq!(scancode_to_char(0x1D, false), None);
    assert_eq!(scancode_to_char(0x00, false), None);
    assert_eq!(scancode_to_char(0x3A, false), None);
    assert_eq!(scancode_to_char(0x7F, false), None);
    assert_eq!(scancode_to_char(0x9E, false), None);
}

#[test]
fn ps2_line_editing() {
    let mut st = Ps2State::new();
    assert!(matches!(handle_scancode(&mut st, 0x23), Some(HandleResult::Char('h'))));
    assert!(handle_scancode(&mut st, 0x2A).is_none());
    assert!(st.shift());
    assert!(matches!(handle_scancode(&mut st, 0x17), Some(HandleResult::Char('I'))));
    assert!(handle_scancode(&mut st, 0xAA).is_none());
    assert!(!st.shift());
    assert!(matches!(handle_scancode(&mut st, 0x17), Some(HandleResult::Char('i'))));
    assert!(matches!(handle_scancode(&mut st, 0x0E), Some(HandleResult::Backspace)));
    assert_eq!(st.input(), b"hI");
    assert!(handle_scancode(&mut st, 0x9E).is_none());
    assert!(handle_scancode(&mut st, 0x01).is_none());
    assert!(handle_scancode(&mut st, 0x0F).is_none());
    match handle_scancode(&mut st, 0x1C) {
        Some(HandleResult::Enter(line)) => assert_eq!(line, b"hI".to_vec()),
        _ => panic!("expected the line"),
    }
    assert_eq!(st.input(), b"");
    assert!(handle_scancode(&mut st, 0x0E).is_none());
    match handle_scancode(&mut st, 0x1C) {
        Some(HandleResult::Enter(line)) => assert!(line.is_empty()),
        _ => panic!("expected an empty line"),
    }
}

#[test]
fn ps2_line_stops_at_255_bytes() {
    let mut st = Ps2State::new();
    for _ in 0..300 {
        handle_scancode(&mut st, 0x1E);
    }
    assert_eq!(st.input().len(), 255);
    assert!(handle_scancode(&mut st, 0x1E).is_none());
    assert!(matches!(handle_scancode(&mut st, 0x0E), Some(HandleResult::Backspace)));
    assert!(matches!(handle_scancode(&mut st, 0x1E), Some(HandleResult::Char('a'))));
}

#[test]
fn controller_status() {
    assert!(output_full(0x01));
    assert!(output_full(0x1D));
    assert!(!output_full(0x1C));
}

#[test]
fn fixed_buffer_editor() {
    let mut st = KeyboardState::new();
    assert_eq!(keyboard::handle_scancode(&mut st, 0x36), KeyAction::Nothing);
    assert_eq!(keyboard::handle_scancode(&mut st, 0x1E), KeyAction::Echo(b'A'));
    assert_eq!(keyboard::handle_scancode(&mut st, 0xB6), KeyAction::Nothing);
    assert_eq!(keyboard::handle_scancode(&mut st, 0x30), KeyAction::Echo(b'b'));
    assert_eq!(keyboard::handle_scancode(&mut st, 0x0E), KeyAction::Erase);
    assert_eq!(keyboard::handle_scancode(&mut st, 0x1C), KeyAction::Submit(b"A".to_vec()));
    assert_eq!(keyboard::handle_scancode(&mut st, 0x0E), KeyAction::Nothing);
    for _ in 0..260 {
        keyboard::handle_scancode(&mut st, 0x02);
    }
    match keyboard::handle_scancode(&mut st, 0x1C) {
        KeyAction::Submit(line) => assert_eq!(line, vec![b'1'; 255]),
        _ => panic!("expected the line"),
    }
}

#[test]
fn keyboard_controller_ports() {
    assert_eq!(rood::drivers::ps2::port_data().port(), 0x60);
    assert_eq!(rood::drivers::ps2::port_status().port(), 0x64);
}

