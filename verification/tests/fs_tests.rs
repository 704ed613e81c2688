use rood::drivers::ata::{AtaError, SECTOR_SIZE};
use rood::fs::{
    decode_header, deserialize_node, encode_header, serialize_node, FileSystem, FsError, Node, NodeType,
    DATA_SECTOR, HEADER_SECTOR,
};

fn fresh() -> FileSystem {
    let mut fs = FileSystem::new();
    fs.add_root();
    fs
}

fn names(fs: &FileSystem) -> Vec<(Vec<u8>, bool)> {
    fs.list().into_iter().map(|(n, d)| (n.to_vec(), d)).collect()
}

#[test]
fn new_filesystem_is_empty_in_directory_zero() {
    let fs = FileSystem::new();
    assert_eq!(fs.node_count(), 0);
    assert_eq!(fs.cwd(), 0);
    assert!(fs.list().is_empty());
}

#[test]
fn root_is_named_slash_and_hidden_from_listing() {
    let fs = fresh();
    assert_eq!(fs.node_count(), 1);
    assert_eq!(fs.cwd_name(), b"/");
    assert!(fs.list().is_empty());
}

#[test]
fn unformatted_disk_gets_two_roots() {
    let mut fs = FileSystem::new();
    fs.add_root();
    fs.add_root();
    assert_eq!(fs.node_count(), 2);
    assert!(fs.list().is_empty());
    assert_eq!(fs.find(b"/"), Some(0));
}

#[test]
fn create_file_then_find_gives_last_node() {
    let mut fs = fresh();
    assert_eq!(fs.create_file(b"notes"), Ok(()));
    assert_eq!(fs.find(b"notes"), Some(1));
    assert_eq!(names(&fs), vec![(b"notes".to_vec(), false)]);
}

#[test]
fn create_twice_is_refused() {
    let mut fs = fresh();
    assert_eq!(fs.create_file(b"a"), Ok(()));
    assert_eq!(fs.create_file(b"a"), Err(FsError::FileExists));
    assert_eq!(fs.create_dir(b"a"), Err(FsError::DirectoryExists));
    assert_eq!(fs.node_count(), 2);
}

#[test]
fn same_name_in_other_directory_is_allowed() {
    let mut fs = fresh();
    fs.create_dir(b"d").unwrap();
    fs.chdir(b"d").unwrap();
    assert_eq!(fs.create_dir(b"d"), Ok(()));
    assert_eq!(fs.find(b"d"), Some(2));
}

#[test]
fn find_misses_other_directories() {
    let mut fs = fresh();
    fs.create_dir(b"d").unwrap();
    fs.chdir(b"d").unwrap();
    fs.create_file(b"inner").unwrap();
    fs.chdir(b"..").unwrap();
    assert_eq!(fs.find(b"inner"), None);
    assert_eq!(fs.find(b"d"), Some(1));
}

#[test]
fn find_gives_first_of_duplicates() {
    let mut sectors = Vec::new();
    for name in [&b"x"[..], &b"x"[..]] {
        let node = Node { name: name.to_vec(), node_type: NodeType::File, data: vec![], parent: 0 };
        let mut buf = [0u8; SECTOR_SIZE];
        serialize_node(&node, &mut buf);
        sectors.push(buf);
    }
    let fs = FileSystem::load(&sectors);
    assert_eq!(fs.find(b"x"), Some(0));
}

#[test]
fn write_then_read() {
    let mut fs = fresh();
    fs.create_file(b"f").unwrap();
    assert_eq!(fs.write(b"f", b"hello world"), Ok(()));
    assert_eq!(fs.read(b"f"), Ok(&b"hello world"[..]));
    assert_eq!(fs.write(b"f", b""), Ok(()));
    assert_eq!(fs.read(b"f"), Ok(&b""[..]));
}

#[test]
fn errors_of_read_write_remove() {
    let mut fs = fresh();
    fs.create_dir(b"d").unwrap();
    assert_eq!(fs.read(b"nope"), Err(FsError::FileNotFound));
    assert_eq!(fs.write(b"nope", b"x"), Err(FsError::FileNotFound));
    assert_eq!(fs.remove(b"nope"), Err(FsError::FileNotFound));
    assert_eq!(fs.read(b"d"), Err(FsError::CannotReadDirectory));
    assert_eq!(fs.write(b"d", b"x"), Err(FsError::CannotWriteDirectory));
    assert_eq!(fs.remove(b"d"), Err(FsError::IsDirectory));
    assert_eq!(fs.node_count(), 2);
}

#[test]
fn remove_shifts_later_nodes_down() {
    let mut fs = fresh();
    fs.create_file(b"a").unwrap();
    fs.create_file(b"b").unwrap();
    assert_eq!(fs.remove(b"a"), Ok(()));
    assert_eq!(fs.node_count(), 2);
    assert_eq!(fs.find(b"b"), Some(1));
    assert_eq!(fs.find(b"a"), None);
}

#[test]
fn chdir_into_and_out_of_directory() {
    let mut fs = fresh();
    fs.create_dir(b"docs").unwrap();
    assert_eq!(fs.chdir(b"docs"), Ok(()));
    assert_eq!(fs.cwd(), 1);
    assert_eq!(fs.cwd_name(), b"docs");
    assert_eq!(fs.chdir(b".."), Ok(()));
    assert_eq!(fs.cwd(), 0);
    assert_eq!(fs.chdir(b".."), Ok(()));
    assert_eq!(fs.cwd(), 0);
}

#[test]
fn chdir_errors() {
    let mut fs = fresh();
    fs.create_file(b"f").unwrap();
    assert_eq!(fs.chdir(b"missing"), Err(FsError::DirectoryNotFound));
    assert_eq!(fs.chdir(b"f"), Err(FsError::NotADirectory));
    assert_eq!(fs.cwd(), 0);
}

#[test]
fn error_messages() {
    assert_eq!(FsError::FileExists.message(), "File already exists");
    assert_eq!(FsError::DirectoryExists.message(), "Directory already exists");
    assert_eq!(FsError::FileNotFound.message(), "File not found");
    assert_eq!(FsError::IsDirectory.message(), "Use rmdir to remove directories");
    assert_eq!(FsError::CannotWriteDirectory.message(), "Cannot write to directory");
    assert_eq!(FsError::CannotReadDirectory.message(), "Cannot read directory");
    assert_eq!(FsError::DirectoryNotFound.message(), "Directory not found");
    assert_eq!(FsError::NotADirectory.message(), "Not a directory");
    assert_eq!(FsError::Disk(AtaError::WriteError).message(), "ATA: write error");
    assert_eq!(FsError::Disk(AtaError::DiskError).message(), "ATA: disk error");
    assert_eq!(FsError::Disk(AtaError::Timeout).message(), "ATA: timeout");
}

#[test]
fn node_sector_layout() {
    let node = Node { name: b"ab".to_vec(), node_type: NodeType::Dir, data: b"xyz".to_vec(), parent: 0x0102_0304 };
    let mut buf = [0xEEu8; SECTOR_SIZE];
    serialize_node(&node, &mut buf);
    assert_eq!(buf[0], 1);
    assert_eq!(&buf[1..5], &[4, 3, 2, 1]);
    assert_eq!(&buf[5..9], &[2, 0, 0, 0]);
    assert_eq!(&buf[9..11], b"ab");
    assert!(buf[11..73].iter().all(|&b| b == 0));
    assert_eq!(&buf[73..77], &[3, 0, 0, 0]);
    assert_eq!(&buf[77..80], b"xyz");
    assert!(buf[80..].iter().all(|&b| b == 0));
}

#[test]
fn node_roundtrip() {
    let node = Node { name: "héllo".as_bytes().to_vec(), node_type: NodeType::File, data: vec![0, 255, 7], parent: 42 };
    let mut buf = [0u8; SECTOR_SIZE];
    serialize_node(&node, &mut buf);
    let back = deserialize_node(&buf);
    assert_eq!(back.name, node.name);
    assert_eq!(back.node_type, NodeType::File);
    assert_eq!(back.data, node.data);
    assert_eq!(back.parent, 42);
}

#[test]
fn long_name_and_data_are_cut() {
    let node = Node { name: vec![b'n'; 100], node_type: NodeType::File, data: vec![9u8; 600], parent: 0 };
    let mut buf = [0u8; SECTOR_SIZE];
    serialize_node(&node, &mut buf);
    assert_eq!(&buf[5..9], &[64, 0, 0, 0]);
    assert_eq!(&buf[73..77], &[0xB3, 1, 0, 0]);
    let back = deserialize_node(&buf);
    assert_eq!(back.name, vec![b'n'; 64]);
    assert_eq!(back.data, vec![9u8; 435]);
}

#[test]
fn bad_sector_fields_are_clamped() {
    let mut buf = [0u8; SECTOR_SIZE];
    buf[0] = 7;
    buf[5] = 0xFF;
    buf[6] = 0xFF;
    buf[73] = 0xFF;
    buf[74] = 0xFF;
    buf[9] = b'z';
    let back = deserialize_node(&buf);
    assert_eq!(back.node_type, NodeType::File);
    assert_eq!(back.name.len(), 64);
    assert_eq!(back.name[0], b'z');
    assert_eq!(back.data.len(), 435);
}

#[test]
fn invalid_utf8_name_reads_as_question_mark() {
    let mut buf = [0u8; SECTOR_SIZE];
    buf[0] = 1;
    buf[5] = 2;
    buf[9] = 0xC3;
    buf[10] = 0x28;
    let back = deserialize_node(&buf);
    assert_eq!(back.name, b"?".to_vec());
    assert_eq!(back.node_type, NodeType::Dir);
}

#[test]
fn name_cut_inside_a_character_reads_as_question_mark() {
    let mut name = vec![b'a'; 63];
    name.extend_from_slice("é".as_bytes());
    let node = Node { name, node_type: NodeType::File, data: vec![], parent: 0 };
    let mut buf = [0u8; SECTOR_SIZE];
    serialize_node(&node, &mut buf);
    assert_eq!(deserialize_node(&buf).name, b"?".to_vec());
}

#[test]
fn header_roundtrip_and_magic() {
    let h = encode_header(3);
    assert_eq!(&h[0..4], b"ROOD");
    assert_eq!(&h[4..8], &[3, 0, 0, 0]);
    assert!(h[8..].iter().all(|&b| b == 0));
    assert_eq!(decode_header(&h), Some(3));
    let blank = [0u8; SECTOR_SIZE];
    assert_eq!(decode_header(&blank), None);
    let mut other = h;
    other[3] = b'T';
    assert_eq!(decode_header(&other), None);
}

#[test]
fn disk_image_then_load_gives_same_table() {
    let mut fs = fresh();
    fs.create_dir(b"docs").unwrap();
    fs.chdir(b"docs").unwrap();
    fs.create_file(b"readme").unwrap();
    fs.write(b"readme", b"some text").unwrap();
    let image = fs.disk_image();
    assert_eq!(image.len(), 4);
    assert_eq!(image[0].0, HEADER_SECTOR);
    assert_eq!(image[1].0, DATA_SECTOR);
    assert_eq!(image[3].0, DATA_SECTOR + 2);
    let count = decode_header(&image[0].1).unwrap();
    assert_eq!(count, 3);
    let sectors: Vec<[u8; SECTOR_SIZE]> = image[1..].iter().map(|(_, s)| *s).collect();
    let mut back = FileSystem::load(&sectors);
    assert_eq!(back.cwd(), 0);
    assert_eq!(back.node_count(), 3);
    assert_eq!(names(&back), vec![(b"docs".to_vec(), true)]);
    back.chdir(b"docs").unwrap();
    assert_eq!(back.read(b"readme"), Ok(&b"some text"[..]));
}
