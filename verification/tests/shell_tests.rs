use rood::framebuffer::{Color, GREEN, RED, WHITE, YELLOW};
use rood::fs::{FileSystem, FsError};
use rood::shell::builtin::{echo, help};
use rood::shell::display::{color, parse_u8, reads_without_overflow};
use rood::shell::files::{cat, cd, change_report, ls, mkdir, pwd, rm, touch, FileCommand, Verb};
use rood::shell::system::{diskinfo, uname};
use rood::shell::{execute, Command};

fn text(out: &[(u8, Color)]) -> Vec<u8> {
    out.iter().map(|(b, _)| *b).collect()
}

fn colors(out: &[(u8, Color)]) -> Vec<Color> {
    out.iter().map(|(_, c)| *c).collect()
}

fn args(words: &[&str]) -> Vec<Vec<u8>> {
    words.iter().map(|w| w.as_bytes().to_vec()).collect()
}

fn fresh() -> FileSystem {
    let mut fs = FileSystem::new();
    fs.add_root();
    fs
}

#[test]
fn blank_lines_give_nothing() {
    assert!(execute(b"").is_none());
    assert!(execute(b"   \t \n").is_none());
}

#[test]
fn command_and_arguments_are_split_at_spaces() {
    let inv = execute(b"  echo hello   world \n").unwrap();
    assert_eq!(inv.command, Command::Echo);
    assert_eq!(inv.name, b"echo".to_vec());
    assert_eq!(inv.args, args(&["hello", "world"]));
}

#[test]
fn at_most_nine_pieces_and_the_last_keeps_the_rest() {
    let inv = execute(b"echo a b c d e f g h i j").unwrap();
    assert_eq!(inv.args, args(&["a", "b", "c", "d", "e", "f", "g", "h i j"]));
    let inv = execute(b"echo  a  b").unwrap();
    assert_eq!(inv.args, args(&["a", "b"]));
    let inv = execute(b"echo        x y").unwrap();
    assert_eq!(inv.args, args(&["x y"]));
}

#[test]
fn tabs_are_not_separators() {
    let inv = execute(b"echo\ta").unwrap();
    assert_eq!(inv.command, Command::Unknown);
    assert_eq!(inv.name, b"echo\ta".to_vec());
    assert!(inv.args.is_empty());
}

#[test]
fn command_names() {
    let cases: Vec<(&[u8], Command)> = vec![
        (b"help", Command::Help),
        (b"clear", Command::Clear),
        (b"echo", Command::Echo),
        (b"uname", Command::Uname),
        (b"reboot", Command::Reboot),
        (b"shutdown", Command::Shutdown),
        (b"diskinfo", Command::DiskInfo),
        (b"color", Command::Color),
        (b"ls", Command::Ls),
        (b"pwd", Command::Pwd),
        (b"cd", Command::Cd),
        (b"mkdir", Command::Mkdir),
        (b"touch", Command::Touch),
        (b"rm", Command::Rm),
        (b"cat", Command::Cat),
        (b"write", Command::Write),
        (b"HELP", Command::Unknown),
        (b"rmdir", Command::Unknown),
    ];
    for (word, cmd) in cases {
        assert_eq!(execute(word).unwrap().command, cmd);
    }
}

#[test]
fn help_lists_the_commands() {
    let out = help();
    let t = String::from_utf8(text(&out)).unwrap();
    assert!(t.starts_with("=== Builtin ===\n  help               - this message\n"));
    assert!(t.ends_with("=== Filesystem ===\n  ls  pwd  cd  mkdir  touch  rm  cat  write\n"));
    assert_eq!(t.lines().count(), 13);
    assert_eq!(out[0].1, YELLOW);
    assert_eq!(out[16].1, WHITE);
}

#[test]
fn echo_joins_with_spaces() {
    let out = echo(&args(&["a", "bc"]));
    assert_eq!(text(&out), b"a bc\n".to_vec());
    assert!(colors(&out).iter().all(|c| *c == WHITE));
    assert_eq!(text(&echo(&vec![])), b"\n".to_vec());
}

#[test]
fn parse_u8_reads_decimal_bytes() {
    assert_eq!(parse_u8(b"0"), Some(0));
    assert_eq!(parse_u8(b"255"), Some(255));
    assert_eq!(parse_u8(b"007"), Some(7));
    assert_eq!(parse_u8(b"256"), None);
    assert_eq!(parse_u8(b"12a"), None);
    assert_eq!(parse_u8(b"-1"), None);
    assert_eq!(parse_u8(b""), Some(0));
    assert_eq!(parse_u8(b"65535"), None);
}

#[test]
fn overflow_check_of_components() {
    assert!(reads_without_overflow(b"65535"));
    assert!(!reads_without_overflow(b"65536"));
    assert!(!reads_without_overflow(b"99999"));
    assert!(reads_without_overflow(b"6553x9999999"));
    assert!(reads_without_overflow(b""));
}

#[test]
fn color_usage_invalid_sample_and_text() {
    let out = color(&args(&["1", "2"]));
    assert_eq!(text(&out), b"Usage: color <r> <g> <b> [text]\n".to_vec());
    assert_eq!(out[0].1, WHITE);
    let out = color(&args(&["1", "2", "300"]));
    assert_eq!(text(&out), b"Invalid values (0-255)\n".to_vec());
    assert_eq!(out[0].1, RED);
    let out = color(&args(&["10", "20", "30"]));
    assert_eq!(text(&out), b"Color sample\n".to_vec());
    assert_eq!(out[0].1, (10, 20, 30));
    assert_eq!(out[12].1, WHITE);
    let out = color(&args(&["1", "2", "3", "hi", "there"]));
    assert_eq!(text(&out), b"hi there\n".to_vec());
    assert_eq!(out[0].1, (1, 2, 3));
}

#[test]
fn uname_text() {
    let out = uname();
    assert_eq!(text(&out), b"Rood 0.1.0 x86_64\n".to_vec());
    assert_eq!(out[0].1, GREEN);
    assert_eq!(out[4].1, WHITE);
}

#[test]
fn diskinfo_forms() {
    let out = diskinfo(&vec![], 0, true, true);
    assert_eq!(
        text(&out),
        b"Disk:   ATA Primary Slave\nStatus: OK\nFS:     ROOD format\nSector: 512 bytes\n".to_vec()
    );
    let out = diskinfo(&vec![], 0, true, false);
    assert_eq!(
        text(&out),
        b"Disk:   ATA Primary Master\nStatus: OK\nFS:     ROOD format\nSector: 512 bytes\n".to_vec()
    );
    let out = diskinfo(&args(&["x"]), 0, false, false);
    assert_eq!(text(&out), b"No disk detected\n".to_vec());
    assert_eq!(out[0].1, RED);
    let out = diskinfo(&args(&["-v"]), 0x58, true, false);
    assert_eq!(text(&out), b"Raw status: 58\nMaster: Y\nSlave:  N\n".to_vec());
    assert_eq!(out[12].1, YELLOW);
}

#[test]
fn ls_and_pwd() {
    let mut fs = fresh();
    assert_eq!(text(&ls(&fs)), b"(empty)\n".to_vec());
    fs.create_dir(b"d").unwrap();
    fs.create_file(b"f").unwrap();
    let out = ls(&fs);
    assert_eq!(text(&out), b"d/\nf\n".to_vec());
    assert_eq!(out[0].1, YELLOW);
    assert_eq!(out[3].1, WHITE);
    let out = pwd(&fs);
    assert_eq!(text(&out), b"/\n".to_vec());
    assert_eq!(out[0].1, GREEN);
}

#[test]
fn cd_outputs() {
    let mut fs = fresh();
    fs.create_dir(b"d").unwrap();
    fs.create_file(b"f").unwrap();
    assert_eq!(text(&cd(&mut fs, &vec![])), b"Usage: cd <dir>\n".to_vec());
    assert_eq!(text(&cd(&mut fs, &args(&["f"]))), b"Not a directory\n".to_vec());
    assert_eq!(text(&cd(&mut fs, &args(&["zz"]))), b"Directory not found\n".to_vec());
    assert!(cd(&mut fs, &args(&["d"])).is_empty());
    assert_eq!(fs.cwd(), 1);
    assert!(cd(&mut fs, &args(&[".."])).is_empty());
    assert_eq!(fs.cwd(), 0);
}

#[test]
fn mkdir_touch_rm_changes_and_errors() {
    let mut fs = fresh();
    match mkdir(&mut fs, &vec![]) {
        FileCommand::Finished(o) => assert_eq!(text(&o), b"Usage: mkdir <dir>\n".to_vec()),
        _ => panic!("expected usage"),
    }
    match mkdir(&mut fs, &args(&["d"])) {
        FileCommand::Changed { verb, name } => {
            assert_eq!(verb, Verb::Created);
            assert_eq!(name, b"d".to_vec());
        },
        _ => panic!("expected a change"),
    }
    match mkdir(&mut fs, &args(&["d"])) {
        FileCommand::Finished(o) => assert_eq!(text(&o), b"Directory already exists\n".to_vec()),
        _ => panic!("expected an error"),
    }
    match touch(&mut fs, &args(&["d"])) {
        FileCommand::Finished(o) => assert_eq!(text(&o), b"File already exists\n".to_vec()),
        _ => panic!("expected an error"),
    }
    match touch(&mut fs, &vec![]) {
        FileCommand::Finished(o) => assert_eq!(text(&o), b"Usage: touch <file>\n".to_vec()),
        _ => panic!("expected usage"),
    }
    assert!(matches!(touch(&mut fs, &args(&["f"])), FileCommand::Changed { verb: Verb::Created, .. }));
    match rm(&mut fs, &args(&["d"])) {
        FileCommand::Finished(o) => assert_eq!(text(&o), b"Use rmdir to remove directories\n".to_vec()),
        _ => panic!("expected an error"),
    }
    match rm(&mut fs, &args(&["zz"])) {
        FileCommand::Finished(o) => assert_eq!(text(&o), b"File not found\n".to_vec()),
        _ => panic!("expected an error"),
    }
    match rm(&mut fs, &vec![]) {
        FileCommand::Finished(o) => assert_eq!(text(&o), b"Usage: rm <file>\n".to_vec()),
        _ => panic!("expected usage"),
    }
    assert!(matches!(rm(&mut fs, &args(&["f"])), FileCommand::Changed { verb: Verb::Removed, .. }));
    assert_eq!(fs.find(b"f"), None);
}

#[test]
fn write_and_cat() {
    let mut fs = fresh();
    fs.create_file(b"f").unwrap();
    fs.create_dir(b"d").unwrap();
    match rood::shell::files::write(&mut fs, &args(&["f"])) {
        FileCommand::Finished(o) => assert_eq!(text(&o), b"Usage: write <file> <text>\n".to_vec()),
        _ => panic!("expected usage"),
    }
    assert!(matches!(rood::shell::files::write(&mut fs, &args(&["f", "a", "b"])), FileCommand::Changed { verb: Verb::Written, .. }));
    assert_eq!(text(&cat(&fs, &args(&["f"]))), b"a b\n".to_vec());
    match rood::shell::files::write(&mut fs, &args(&["d", "x"])) {
        FileCommand::Finished(o) => assert_eq!(text(&o), b"Cannot write to directory\n".to_vec()),
        _ => panic!("expected an error"),
    }
    match rood::shell::files::write(&mut fs, &args(&["zz", "x"])) {
        FileCommand::Finished(o) => assert_eq!(text(&o), b"File not found\n".to_vec()),
        _ => panic!("expected an error"),
    }
    assert_eq!(text(&cat(&fs, &args(&["d"]))), b"Cannot read directory\n".to_vec());
    assert_eq!(text(&cat(&fs, &args(&["zz"]))), b"File not found\n".to_vec());
    assert_eq!(text(&cat(&fs, &vec![])), b"Usage: cat <file>\n".to_vec());
}

#[test]
fn change_reports() {
    let out = change_report(Verb::Created, b"x", Ok(()));
    assert_eq!(text(&out), b"Created: x\n".to_vec());
    assert_eq!(out[0].1, GREEN);
    assert_eq!(text(&change_report(Verb::Removed, b"x", Ok(()))), b"Removed: x\n".to_vec());
    assert_eq!(text(&change_report(Verb::Written, b"x", Ok(()))), b"Written: x\n".to_vec());
    let out = change_report(Verb::Written, b"x", Err(FsError::Disk(rood::drivers::ata::AtaError::Timeout)));
    assert_eq!(text(&out), b"ATA: timeout\n".to_vec());
    assert_eq!(out[0].1, RED);
}

#[test]
fn pieces_join_back_to_the_line() {
    let line = b"  write notes.txt one two three  ";
    let inv = execute(line).unwrap();
    let mut joined = inv.name.clone();
    for a in &inv.args {
        joined.push(b' ');
        joined.extend_from_slice(a);
    }
    assert_eq!(joined, b"write notes.txt one two three".to_vec());
}

#[test]
fn unicode_whitespace_is_trimmed() {
    assert!(execute("\u{a0}".as_bytes()).is_none());
    assert!(execute("\u{3000} \u{2003}\t\u{85}".as_bytes()).is_none());
    let inv = execute("\u{a0}HELP".as_bytes()).unwrap();
    assert_eq!(inv.command, Command::Unknown);
    assert_eq!(inv.name, b"HELP".to_vec());
    let inv = execute("\u{a0}help\u{2028}".as_bytes()).unwrap();
    assert_eq!(inv.command, Command::Help);
    let inv = execute("echo \u{a0}x".as_bytes()).unwrap();
    assert_eq!(inv.args, vec!["\u{a0}x".as_bytes().to_vec()]);
}

#[test]
fn line_cuts_like_its_trimmed_form() {
    let raw = "\u{3000} echo a  b c d e f g h i j k \t".as_bytes();
    let trimmed = b"echo a  b c d e f g h i j k";
    let a = execute(raw).unwrap();
    let b = execute(trimmed).unwrap();
    assert_eq!(a.name, b.name);
    assert_eq!(a.args, b.args);
    assert!(a.args.len() <= 8);
    assert!(a.args.iter().all(|x| !x.is_empty()));
    assert!(a.args[..a.args.len() - 1].iter().all(|x| !x.contains(&b' ')));
    assert_eq!(a.args.last().unwrap(), &b"g h i j k".to_vec());
}
